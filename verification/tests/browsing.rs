use pathfinder_geometry::vector::Vector2F;
use remote_files::action::{
    key_action, open_event, EditorEvent, Effects, Route, ServerFileBrowserAction,
    ServerFileBrowserEvent, Work,
};
use remote_files::browser::ServerFileBrowserView;
use remote_files::entry::{FileSystemEntryKind, ServerFileBrowserEntry};
use remote_files::listing::ResolvedRemotePath;
use remote_files::status::{Message, Status};

const DIR: FileSystemEntryKind = FileSystemEntryKind::Directory;
const FILE: FileSystemEntryKind = FileSystemEntryKind::File;
const LINK: FileSystemEntryKind = FileSystemEntryKind::Symlink;

fn row(path: &str, kind: FileSystemEntryKind) -> ServerFileBrowserEntry {
    ServerFileBrowserEntry {
        name: path.rsplit('/').next().unwrap().to_string(),
        path: path.to_string(),
        kind,
        size_bytes: None,
        modified_epoch_millis: None,
        depth: 0,
    }
}

fn shown(browser: &ServerFileBrowserView) -> Vec<(&str, usize)> {
    browser.entries().iter().map(|e| (e.path.as_str(), e.depth)).collect()
}

fn message(browser: &ServerFileBrowserView) -> Option<Message> {
    match browser.status() {
        Some(Status::Message(message)) => Some(message),
        _ => None,
    }
}

fn text(browser: &ServerFileBrowserView) -> Option<String> {
    match browser.status() {
        Some(Status::Text(text)) => Some(text),
        _ => None,
    }
}

fn error(text: &str) -> Status<String> {
    Status::Text(text.to_string())
}

fn is_plain(effects: &Effects<String>, notify: bool) -> bool {
    effects.notify == notify
        && !effects.focus
        && !effects.sync_editor
        && !effects.reset_scroll
        && effects.open.is_none()
        && matches!(effects.work, Work::Nothing)
}

fn act(
    browser: &mut ServerFileBrowserView,
    action: ServerFileBrowserAction,
) -> Effects<String> {
    browser.try_handle_action(action, true, "").unwrap()
}

/// A browser of the host `h` that shows the directory `/r` with a directory, a file and a link.
fn browser() -> ServerFileBrowserView {
    let mut browser = ServerFileBrowserView::new();
    browser.set_remote_root("h".to_string(), "/r".to_string(), Some(1), true);
    browser.finish_load(Ok((
        "/r".to_string(),
        vec![row("/r/d", DIR), row("/r/f", FILE), row("/r/l", LINK)],
    )));
    browser
}

#[test]
fn starts_empty() {
    let browser = ServerFileBrowserView::new();
    assert_eq!(browser.current_path(), "");
    assert_eq!(browser.host_id(), None);
    assert!(browser.entries().is_empty());
    assert_eq!(browser.selected_index(), None);
    assert!(!browser.is_loading());
    assert_eq!(message(&browser), Some(Message::Empty));
    assert!(browser.context_menu().is_empty());
    assert!(browser.context_menu_position().is_none());
}

#[test]
fn shows_a_directory_of_a_host() {
    let mut browser = ServerFileBrowserView::new();
    let effects = browser.set_remote_root("h".to_string(), "/r".to_string(), Some(1), true);
    assert!(effects.notify && effects.sync_editor);
    assert!(matches!(
        effects.work,
        Work::ListCurrent { route: Route::Client, path } if path == "/r"
    ));
    assert!(browser.is_loading());
    assert!(browser.status().is_none());
    let again = browser.set_remote_root("h".to_string(), "/r".to_string(), Some(1), true);
    assert!(is_plain(&again, false));
    let other = browser.set_remote_root("h".to_string(), "/r".to_string(), Some(2), false);
    assert!(matches!(other.work, Work::ListCurrent { route: Route::Session(2), .. }));
    let other = browser.set_remote_root("h".to_string(), "/q".to_string(), Some(2), true);
    assert!(matches!(other.work, Work::ListCurrent { route: Route::Client, .. }));
    let other = browser.set_remote_root("i".to_string(), "/q".to_string(), Some(2), true);
    assert!(matches!(other.work, Work::ListCurrent { .. }));
    let other = browser.set_remote_root("i".to_string(), "/q".to_string(), None, true);
    assert!(matches!(other.work, Work::ListCurrent { .. }));
    assert_eq!(browser.host_id(), Some("i"));
}

#[test]
fn shows_the_home_directory_where_no_path_is_given() {
    let mut browser = ServerFileBrowserView::new();
    let effects = browser.set_remote_root("h".to_string(), String::new(), None, true);
    assert!(matches!(effects.work, Work::ListCurrent { path, .. } if path == "~"));
    assert_eq!(browser.current_path(), "");
}

#[test]
fn unreachable_host_is_reported() {
    let mut browser = ServerFileBrowserView::new();
    let effects = browser.set_remote_root("h".to_string(), "/r".to_string(), None, false);
    assert!(matches!(effects.work, Work::Nothing));
    assert!(effects.notify && effects.sync_editor);
    assert_eq!(message(&browser), Some(Message::NoSession));
    assert!(!browser.is_loading());
    let effects =
        browser.try_handle_action(ServerFileBrowserAction::JumpToPath, false, "/x").unwrap();
    assert!(is_plain(&effects, true));
    assert_eq!(message(&browser), Some(Message::NoSession));
}

#[test]
fn listing_is_shown_anew() {
    let mut browser = browser();
    assert_eq!(shown(&browser), vec![("/r/d", 0), ("/r/f", 0), ("/r/l", 0)]);
    act(&mut browser, ServerFileBrowserAction::SelectNextItem);
    let effects = browser.finish_load(Ok(("/canonical".to_string(), vec![row("/c/x", FILE)])));
    assert!(effects.notify && effects.sync_editor && effects.reset_scroll);
    assert_eq!(browser.current_path(), "/canonical");
    assert_eq!(browser.selected_index(), None);
    assert!(!browser.is_loading());
    assert!(browser.status().is_none());
}

#[test]
fn failed_listing_keeps_the_rows() {
    let mut browser = browser();
    act(&mut browser, ServerFileBrowserAction::Refresh);
    assert!(browser.is_loading());
    let effects = browser.finish_load(Err(error("denied")));
    assert!(is_plain(&effects, true));
    assert!(!browser.is_loading());
    assert_eq!(text(&browser).as_deref(), Some("denied"));
    assert_eq!(browser.entries().len(), 3);
}

#[test]
fn directory_is_listed_when_it_is_first_expanded() {
    let mut browser = browser();
    let effects = act(&mut browser, ServerFileBrowserAction::ClickEntry(0));
    assert!(effects.focus && effects.notify);
    assert!(browser.is_loading());
    let depth = match effects.work {
        Work::ListChildren { route: Route::Client, path, depth } => {
            assert_eq!(path, "/r/d");
            depth
        }
        work => panic!("{work:?}"),
    };
    assert_eq!(depth, 1);
    let children = vec![row("/r/d/e", DIR), row("/r/d/g", FILE)];
    let effects = browser.try_finish_toggle(Ok(("/r/d".to_string(), children)), depth).unwrap();
    assert!(is_plain(&effects, true));
    let expanded = vec![("/r/d", 0), ("/r/d/e", 1), ("/r/d/g", 1), ("/r/f", 0), ("/r/l", 0)];
    assert_eq!(shown(&browser), expanded);
    assert_eq!(browser.selected_index(), Some(0));

    let effects = act(&mut browser, ServerFileBrowserAction::ToggleDirectory("/r/d/e".to_string()));
    assert!(matches!(effects.work, Work::ListChildren { depth: 2, .. }));
    browser.try_finish_toggle(Ok(("/r/d/e".to_string(), vec![row("/r/d/e/z", FILE)])), 2).unwrap();
    assert_eq!(shown(&browser)[2], ("/r/d/e/z", 2));

    let effects = act(&mut browser, ServerFileBrowserAction::ClickEntry(0));
    assert!(effects.focus && matches!(effects.work, Work::Nothing));
    assert_eq!(shown(&browser), vec![("/r/d", 0), ("/r/f", 0), ("/r/l", 0)]);
    let effects = act(&mut browser, ServerFileBrowserAction::ClickEntry(0));
    assert!(matches!(effects.work, Work::Nothing));
    assert_eq!(browser.entries().len(), 6);
}

#[test]
fn collapsing_undoes_expanding() {
    let mut browser = browser();
    let toggle = || ServerFileBrowserAction::ToggleDirectory("/r/d".to_string());
    act(&mut browser, toggle());
    browser.try_finish_toggle(Ok(("/r/d".to_string(), vec![row("/r/d/g", FILE)])), 1).unwrap();
    act(&mut browser, toggle());
    act(&mut browser, ServerFileBrowserAction::SelectNextItem);
    act(&mut browser, ServerFileBrowserAction::SelectNextItem);
    let before = (shown(&browser).len(), browser.selected_index());
    act(&mut browser, toggle());
    assert_eq!(browser.selected_index(), Some(3));
    act(&mut browser, toggle());
    assert_eq!((shown(&browser).len(), browser.selected_index()), before);
}

#[test]
fn selection_falls_back_when_its_row_disappears() {
    let mut browser = browser();
    act(&mut browser, ServerFileBrowserAction::ClickEntry(0));
    let children = vec![row("/r/d/1", FILE), row("/r/d/2", FILE), row("/r/d/3", FILE)];
    browser.try_finish_toggle(Ok(("/r/d".to_string(), children)), 1).unwrap();
    browser.select_index(3);
    act(&mut browser, ServerFileBrowserAction::ToggleDirectory("/r/d".to_string()));
    assert_eq!(browser.selected_index(), Some(2));
    assert!(is_plain(&browser.select_index(3), false));
    assert_eq!(browser.selected_index(), Some(2));
    assert!(is_plain(&browser.select_index(1), true));
    assert_eq!(browser.selected_index(), Some(1));
}

#[test]
fn failed_expansion_keeps_the_rows() {
    let mut browser = browser();
    act(&mut browser, ServerFileBrowserAction::ClickEntry(0));
    let effects = browser.try_finish_toggle(Err(error("denied")), 1).unwrap();
    assert!(is_plain(&effects, true));
    assert_eq!(text(&browser).as_deref(), Some("denied"));
    assert!(!browser.is_loading());
    assert_eq!(browser.entries().len(), 3);
    let effects = act(&mut browser, ServerFileBrowserAction::ClickEntry(0));
    assert!(matches!(effects.work, Work::Nothing));
    let effects = act(&mut browser, ServerFileBrowserAction::ClickEntry(0));
    assert!(matches!(effects.work, Work::ListChildren { .. }));
}

#[test]
fn expansion_without_a_session_is_an_error() {
    let mut browser = browser();
    browser.set_remote_root("h".to_string(), "/r".to_string(), None, true);
    browser.finish_load(Ok(("/r".to_string(), vec![row("/r/d", DIR)])));
    let effects =
        browser.try_handle_action(ServerFileBrowserAction::ClickEntry(0), false, "").unwrap();
    assert!(effects.focus && effects.notify && matches!(effects.work, Work::Nothing));
    assert_eq!(message(&browser), Some(Message::NoSession));
}

#[test]
fn directory_is_never_shown_below_itself() {
    let mut browser = browser();
    act(&mut browser, ServerFileBrowserAction::ClickEntry(0));
    let looping = || Ok(("/r/d".to_string(), vec![row("/r/d", DIR)]));
    assert!(browser.try_finish_toggle(looping(), 1).is_none());
    assert_eq!(browser.entries().len(), 3);
    assert!(browser.is_loading());
    act(&mut browser, ServerFileBrowserAction::ToggleDirectory("/r/d".to_string()));
    assert!(browser.try_finish_toggle(looping(), 1).is_some());
    let action = ServerFileBrowserAction::ToggleDirectory("/r/d".to_string());
    assert!(browser.try_handle_action(action, true, "").is_none());
    assert!(browser.try_handle_action(ServerFileBrowserAction::ClickEntry(0), true, "").is_none());
    assert!(browser.try_handle_action(ServerFileBrowserAction::OpenEntry(0), true, "").is_none());
    assert_eq!(browser.entries().len(), 3);
}

#[test]
fn rows_can_be_indented_only_so_far() {
    let mut browser = ServerFileBrowserView::new();
    browser.set_remote_root("h".to_string(), "/r".to_string(), None, true);
    let mut deep = row("/r/d", DIR);
    deep.depth = usize::MAX;
    browser.finish_load(Ok(("/r".to_string(), vec![deep])));
    assert!(browser.try_handle_action(ServerFileBrowserAction::ClickEntry(0), true, "").is_none());
    let action = ServerFileBrowserAction::ToggleDirectory("/elsewhere".to_string());
    let effects = browser.try_handle_action(action, true, "").unwrap();
    assert!(matches!(effects.work, Work::ListChildren { depth: 1, .. }));
}

#[test]
fn clicks_select() {
    let mut browser = browser();
    let effects = act(&mut browser, ServerFileBrowserAction::ClickEntry(1));
    assert!(effects.focus && effects.notify && matches!(effects.work, Work::Nothing));
    assert_eq!(browser.selected_index(), Some(1));
    let effects = act(&mut browser, ServerFileBrowserAction::ClickEntry(9));
    assert!(effects.focus && !effects.notify);
    assert_eq!(browser.selected_index(), Some(1));
}

#[test]
fn opening_rows() {
    let mut browser = browser();
    let effects = act(&mut browser, ServerFileBrowserAction::OpenEntry(1));
    assert!(effects.focus && effects.notify);
    assert_eq!(effects.open, Some(("h".to_string(), "/r/f".to_string())));
    let effects = act(&mut browser, ServerFileBrowserAction::OpenEntry(2));
    match effects.work {
        Work::Resolve { route: Route::Client, path, host_id } => {
            assert_eq!(path, "/r/l");
            assert_eq!(host_id.as_deref(), Some("h"));
        }
        work => panic!("{work:?}"),
    }
    assert!(browser.is_loading());
    let effects = act(&mut browser, ServerFileBrowserAction::OpenEntry(0));
    assert!(matches!(effects.work, Work::ListChildren { .. }));
    assert_eq!(browser.selected_index(), Some(0));
    let effects = act(&mut browser, ServerFileBrowserAction::OpenEntry(7));
    assert!(effects.focus && !effects.notify && effects.open.is_none());
}

#[test]
fn resolved_directory_is_shown() {
    let mut browser = browser();
    let found = ResolvedRemotePath { canonical_path: "/q".to_string(), kind: DIR };
    let effects = browser.finish_resolve_and_open(Ok(found), Some("h".to_string()), true);
    assert!(effects.notify && effects.sync_editor && effects.open.is_none());
    assert!(matches!(effects.work, Work::ListCurrent { path, .. } if path == "/q"));
    assert_eq!(browser.current_path(), "/q");
    assert!(browser.is_loading());
}

#[test]
fn resolved_file_is_opened_and_its_directory_shown() {
    let mut browser = browser();
    let found = ResolvedRemotePath { canonical_path: "/q/f".to_string(), kind: FILE };
    let effects = browser.finish_resolve_and_open(Ok(found), Some("g".to_string()), true);
    assert_eq!(effects.open, Some(("g".to_string(), "/q/f".to_string())));
    assert!(matches!(effects.work, Work::ListCurrent { path, .. } if path == "/q"));
    let found = ResolvedRemotePath { canonical_path: "f".to_string(), kind: FILE };
    let effects = browser.finish_resolve_and_open(Ok(found), None, true);
    assert!(is_plain(&effects, true));
    assert_eq!(browser.current_path(), "/q");
    assert!(!browser.is_loading());
}

#[test]
fn other_resolved_paths_are_turned_down() {
    let mut browser = browser();
    for kind in [LINK, FileSystemEntryKind::Other, FileSystemEntryKind::Unspecified] {
        let found = ResolvedRemotePath { canonical_path: "/q".to_string(), kind };
        let effects = browser.finish_resolve_and_open(Ok(found), Some("h".to_string()), true);
        assert!(is_plain(&effects, true));
        assert_eq!(message(&browser), Some(Message::UnsupportedPath));
    }
    let effects = browser.finish_resolve_and_open(Err(error("gone")), None, true);
    assert!(is_plain(&effects, true));
    assert_eq!(text(&browser).as_deref(), Some("gone"));
    assert_eq!(browser.current_path(), "/r");
}

#[test]
fn typed_paths() {
    let mut browser = browser();
    let effects = browser.handle_editor_event(EditorEvent::Enter, "  /x y \n", false);
    assert!(matches!(
        effects.work,
        Work::Resolve { route: Route::Session(1), path, .. } if path == "/x y"
    ));
    assert!(is_plain(&browser.handle_editor_event(EditorEvent::Enter, " \t", true), false));
    let effects = browser.handle_editor_event(EditorEvent::Escape, "/x", true);
    assert!(effects.sync_editor && !effects.notify);
    assert!(is_plain(&browser.handle_editor_event(EditorEvent::Other, "/x", true), false));
    let effects =
        browser.try_handle_action(ServerFileBrowserAction::JumpToPath, true, "/z").unwrap();
    assert!(matches!(effects.work, Work::Resolve { route: Route::Client, .. }));
}

#[test]
fn keys() {
    let mut browser = browser();
    for (key, selected) in [("down", 1), ("down", 2), ("down", 2), ("up", 1), ("up", 0), ("up", 0)]
    {
        act(&mut browser, key_action(key).unwrap());
        assert_eq!(browser.selected_index(), Some(selected));
    }
    let effects = act(&mut browser, key_action("right").unwrap());
    assert!(matches!(effects.work, Work::ListChildren { .. }));
    assert!(is_plain(&act(&mut browser, key_action("right").unwrap()), false));
    assert!(is_plain(&act(&mut browser, key_action("left").unwrap()), true));
    assert!(is_plain(&act(&mut browser, key_action("left").unwrap()), false));
    act(&mut browser, key_action("down").unwrap());
    let effects = act(&mut browser, key_action("enter").unwrap());
    assert_eq!(effects.open, Some(("h".to_string(), "/r/f".to_string())));
    assert!(!effects.focus);
    assert!(is_plain(&act(&mut browser, key_action("right").unwrap()), false));
    assert!(is_plain(&act(&mut browser, key_action("escape").unwrap()), true));
    for key in ["", "a", "Up", "tab", "space"] {
        assert!(key_action(key).is_none());
    }
}

#[test]
fn keys_without_a_selection() {
    let mut browser = browser();
    for key in ["right", "left", "enter"] {
        assert!(is_plain(&act(&mut browser, key_action(key).unwrap()), false));
    }
    let mut empty = ServerFileBrowserView::new();
    for key in ["up", "down"] {
        assert!(is_plain(&act(&mut empty, key_action(key).unwrap()), true));
        assert_eq!(empty.selected_index(), None);
    }
}

#[test]
fn focus_selects_the_first_row() {
    let mut view = browser();
    let effects = view.on_left_panel_focused();
    assert!(effects.focus && effects.notify);
    assert_eq!(view.selected_index(), Some(0));
    let mut view = browser();
    assert!(is_plain(&view.on_focus(false), false));
    assert_eq!(view.selected_index(), None);
    assert!(is_plain(&view.on_focus(true), true));
    assert_eq!(view.selected_index(), Some(0));
    assert!(is_plain(&view.on_focus(true), false));
    let mut view = ServerFileBrowserView::new();
    assert!(view.on_left_panel_focused().notify);
    assert_eq!(view.selected_index(), None);
}

#[test]
fn context_menu_of_a_directory() {
    let mut browser = browser();
    let position = Vector2F::new(3.0, 4.0);
    let effects =
        act(&mut browser, ServerFileBrowserAction::OpenContextMenu { index: 0, position });
    assert!(is_plain(&effects, true));
    assert_eq!(browser.selected_index(), Some(0));
    assert_eq!(browser.context_menu_position(), Some(position));
    let menu = browser.context_menu();
    assert_eq!(menu.len(), 5);
    assert!(matches!(&menu[0].action, ServerFileBrowserAction::Download(p) if p == "/r/d"));
    assert!(matches!(&menu[1].action, ServerFileBrowserAction::UploadFiles(p) if p == "/r/d"));
    assert!(matches!(&menu[2].action, ServerFileBrowserAction::UploadFolder(p) if p == "/r/d"));
    assert!(matches!(&menu[3].action, ServerFileBrowserAction::CopyPath(p) if p == "/r/d"));
    assert!(matches!(&menu[4].action, ServerFileBrowserAction::JumpToDirectory(p) if p == "/r/d"));
    let labels: Vec<Message> = menu.iter().map(|entry| entry.label).collect();
    assert_eq!(
        labels,
        vec![
            Message::MenuDownload,
            Message::MenuUploadFile,
            Message::MenuUploadFolder,
            Message::MenuCopyPath,
            Message::MenuJumpToPath,
        ]
    );
}

#[test]
fn context_menu_of_a_file() {
    let mut browser = browser();
    let position = Vector2F::new(0.0, 0.0);
    act(&mut browser, ServerFileBrowserAction::OpenContextMenu { index: 1, position });
    let menu = browser.context_menu();
    assert_eq!(menu.len(), 4);
    assert!(matches!(&menu[1].action, ServerFileBrowserAction::UploadFiles(p) if p == "/r"));
    let items = browser.context_menu_items(&row("plain", FILE));
    assert!(matches!(&items[1].action, ServerFileBrowserAction::UploadFiles(p) if p == "/r"));
    let position = Vector2F::new(9.0, 9.0);
    let effects = act(&mut browser, ServerFileBrowserAction::OpenContextMenu { index: 8, position });
    assert!(is_plain(&effects, false));
    assert_eq!(browser.context_menu_position(), Some(Vector2F::new(0.0, 0.0)));
}

#[test]
fn context_menu_is_closed() {
    let position = Vector2F::new(1.0, 1.0);
    let mut browser = browser();
    act(&mut browser, ServerFileBrowserAction::OpenContextMenu { index: 1, position });
    assert!(is_plain(&browser.handle_menu_event(false), true));
    assert!(browser.context_menu_position().is_some());
    assert!(is_plain(&browser.handle_menu_event(true), true));
    assert!(browser.context_menu_position().is_none());
    act(&mut browser, ServerFileBrowserAction::OpenContextMenu { index: 1, position });
    act(&mut browser, ServerFileBrowserAction::DismissContextMenu);
    assert!(browser.context_menu_position().is_none());
}

#[test]
fn paths_are_copied() {
    let mut browser = browser();
    let position = Vector2F::new(1.0, 1.0);
    act(&mut browser, ServerFileBrowserAction::OpenContextMenu { index: 1, position });
    let effects = act(&mut browser, ServerFileBrowserAction::CopyPath("/r/f".to_string()));
    assert!(effects.notify);
    assert!(matches!(effects.work, Work::Copy { path } if path == "/r/f"));
    assert_eq!(message(&browser), Some(Message::CopiedPath));
    assert!(browser.context_menu_position().is_none());
}

#[test]
fn jumping_to_a_directory() {
    let mut browser = browser();
    let effects = act(&mut browser, ServerFileBrowserAction::JumpToDirectory("/r/d".to_string()));
    assert!(effects.sync_editor && effects.notify);
    assert!(matches!(effects.work, Work::ListCurrent { path, .. } if path == "/r/d"));
    assert_eq!(browser.current_path(), "/r/d");
}

#[test]
fn choosing_uploads() {
    let mut browser = browser();
    let effects = act(&mut browser, ServerFileBrowserAction::UploadFiles("/r".to_string()));
    assert!(effects.notify);
    assert!(matches!(
        effects.work,
        Work::PickUpload { remote_directory, folder: false } if remote_directory == "/r"
    ));
    let effects = act(&mut browser, ServerFileBrowserAction::UploadFolder("/r/d".to_string()));
    assert!(matches!(
        effects.work,
        Work::PickUpload { remote_directory, folder: true } if remote_directory == "/r/d"
    ));
    let action = ServerFileBrowserAction::UploadFiles("/r".to_string());
    let effects = browser.try_handle_action(action, false, "").unwrap();
    assert!(is_plain(&effects, true));
    assert_eq!(message(&browser), Some(Message::NoSession));
    let effects = browser.choose_and_upload_folder("/r".to_string(), true);
    assert!(!effects.notify && matches!(effects.work, Work::PickUpload { folder: true, .. }));
}

#[test]
fn choosing_downloads() {
    let mut browser = browser();
    let effects = act(&mut browser, ServerFileBrowserAction::Download("/r/d".to_string()));
    assert!(effects.notify);
    assert!(matches!(
        effects.work,
        Work::PickDownloadFolder { remote_path } if remote_path == "/r/d"
    ));
    let effects = act(&mut browser, ServerFileBrowserAction::Download("/r/f".to_string()));
    assert!(matches!(
        effects.work,
        Work::PickDownloadFile { remote_path, default_filename }
            if remote_path == "/r/f" && default_filename == "f"
    ));
    let effects = act(&mut browser, ServerFileBrowserAction::Download("/other".to_string()));
    assert!(is_plain(&effects, true));
    assert!(browser.status().is_none());
    let action = ServerFileBrowserAction::Download("/r/f".to_string());
    let effects = browser.try_handle_action(action, false, "").unwrap();
    assert!(is_plain(&effects, true));
    assert_eq!(message(&browser), Some(Message::NoSession));
}

#[test]
fn finished_transfers() {
    let mut browser = browser();
    let effects = browser.finish_transfer(Ok(()), true);
    assert!(effects.notify);
    assert!(matches!(effects.work, Work::ListCurrent { path, .. } if path == "/r"));
    let effects = browser.finish_transfer(Err(error("full")), true);
    assert!(is_plain(&effects, true));
    assert_eq!(text(&browser).as_deref(), Some("full"));
}

#[test]
fn files_with_a_standardized_path_are_opened() {
    let event = open_event(Some("h"), Some("/r/f".to_string())).unwrap();
    let ServerFileBrowserEvent::OpenRemoteFile { remote_path } = event.clone();
    assert_eq!(remote_path.host_id, "h");
    assert_eq!(remote_path.path, "/r/f");
    assert!(open_event(Some("h"), None::<String>).is_none());
    assert!(open_event(None::<String>, Some("/r/f")).is_none());
}

#[test]
fn expanding_undoes_collapsing() {
    let mut browser = browser();
    let toggle = || ServerFileBrowserAction::ToggleDirectory("/r/d".to_string());
    act(&mut browser, toggle());
    browser.try_finish_toggle(Ok(("/r/d".to_string(), vec![row("/r/d/g", FILE)])), 1).unwrap();
    browser.select_index(2);
    let expanded: Vec<String> = browser.entries().iter().map(|e| e.path.clone()).collect();
    assert!(is_plain(&act(&mut browser, toggle()), true));
    let collapsed: Vec<String> = browser.entries().iter().map(|e| e.path.clone()).collect();
    assert_eq!(browser.selected_index(), Some(1));
    let kept: Vec<String> = expanded.iter().filter(|p| collapsed.contains(p)).cloned().collect();
    assert_eq!(kept, collapsed);
    assert!(is_plain(&act(&mut browser, toggle()), true));
    let again: Vec<String> = browser.entries().iter().map(|e| e.path.clone()).collect();
    assert_eq!(again, expanded);
    assert_eq!(browser.selected_index(), Some(2));
}
