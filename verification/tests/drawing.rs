use pathfinder_geometry::vector::Vector2F;
use remote_files::action::{EditorEvent, Icon, ServerFileBrowserAction};
use remote_files::browser::ServerFileBrowserView;
use remote_files::drawn::DrawnBrowser;
use remote_files::entry::{FileSystemEntryKind, ServerFileBrowserEntry};
use remote_files::listing::ResolvedRemotePath;
use remote_files::panel::{entry_row, row_action, toolbar_buttons, Contents, Pointer, RowStates};
use remote_files::status::{Message, Status};

fn row(path: &str, kind: FileSystemEntryKind, depth: usize) -> ServerFileBrowserEntry {
    ServerFileBrowserEntry {
        name: path.rsplit('/').next().unwrap().to_string(),
        path: path.to_string(),
        kind,
        size_bytes: None,
        modified_epoch_millis: None,
        depth,
    }
}

#[test]
fn directories_have_a_chevron() {
    let dir = row("/r/d", FileSystemEntryKind::Directory, 2);
    let open = entry_row(&dir, true, true, "modified");
    assert_eq!(open.indent, 2);
    assert_eq!(open.chevron, Some(Icon::ChevronDown));
    assert_eq!(open.icon, Icon::Folder);
    assert_eq!(open.label, "d");
    assert_eq!(open.metadata, None);
    assert!(open.is_selected);
    let closed = entry_row(&dir, false, false, "modified");
    assert_eq!(closed.chevron, Some(Icon::ChevronRight));
    assert!(!closed.is_selected);
    let file = entry_row(&row("/r/f", FileSystemEntryKind::File, 0), false, true, "modified");
    assert_eq!(file.chevron, None);
    assert_eq!(file.icon, Icon::File);
}

#[test]
fn metadata_below_the_label() {
    let mut file = row("/r/f", FileSystemEntryKind::File, 0);
    file.size_bytes = Some(1536);
    assert_eq!(entry_row(&file, false, false, "changed").metadata.as_deref(), Some("1.5 KB"));
    file.modified_epoch_millis = Some(0);
    assert_eq!(
        entry_row(&file, false, false, "changed").metadata.as_deref(),
        Some("1.5 KB · changed")
    );
    file.size_bytes = None;
    assert_eq!(entry_row(&file, false, false, "changed").metadata.as_deref(), Some("changed"));
}

#[test]
fn contents_of_the_panel() {
    let mut browser = ServerFileBrowserView::new();
    assert_eq!(browser.contents(), Contents::Message(Message::NoSession));
    browser.set_remote_root("h".to_string(), "/r".to_string(), None, true);
    assert_eq!(browser.contents(), Contents::Message(Message::Loading));
    browser.finish_load(Ok(("/r".to_string(), Vec::new())));
    assert_eq!(browser.contents(), Contents::Message(Message::EmptyDirectory));
    let entries = vec![row("/r/d", FileSystemEntryKind::Directory, 0)];
    browser.finish_load(Ok(("/r".to_string(), entries)));
    assert_eq!(browser.contents(), Contents::Rows);
    browser.load_current_directory(true);
    assert_eq!(browser.contents(), Contents::Rows);
    browser.finish_load(Err(Status::Text("denied".to_string())));
    assert_eq!(browser.contents(), Contents::Rows);
}

#[test]
fn rows_of_the_panel() {
    let mut browser = ServerFileBrowserView::new();
    browser.set_remote_root("h".to_string(), "/r".to_string(), None, true);
    let entries = vec![
        row("/r/d", FileSystemEntryKind::Directory, 0),
        row("/r/f", FileSystemEntryKind::File, 0),
    ];
    browser.finish_load(Ok(("/r".to_string(), entries)));
    browser.try_handle_action(ServerFileBrowserAction::ClickEntry(0), true, "").unwrap();
    let first = browser.row(0, "changed").unwrap();
    assert!(first.is_selected);
    assert_eq!(first.chevron, Some(Icon::ChevronDown));
    let second = browser.row(1, "changed").unwrap();
    assert!(!second.is_selected);
    assert_eq!(second.label, "f");
    assert!(browser.row(2, "changed").is_none());
}

#[test]
fn toolbar() {
    let buttons = toolbar_buttons("/r");
    let icons: Vec<Icon> = buttons.iter().map(|button| button.icon).collect();
    assert_eq!(icons, vec![Icon::Refresh, Icon::UploadCloud, Icon::Folder]);
    assert!(matches!(buttons[0].action, ServerFileBrowserAction::Refresh));
    assert!(matches!(&buttons[1].action, ServerFileBrowserAction::UploadFiles(p) if p == "/r"));
    assert!(matches!(&buttons[2].action, ServerFileBrowserAction::UploadFolder(p) if p == "/r"));
}

#[test]
fn row_states_follow_the_rows() {
    let handle = std::rc::Rc::new(std::cell::Cell::new(0));
    let mut states: RowStates<std::rc::Rc<std::cell::Cell<i32>>> = RowStates::new();
    assert!(states.get("/r/a").is_none());
    let a = row("/r/a", FileSystemEntryKind::File, 0);
    let b = row("/r/b", FileSystemEntryKind::File, 0);
    let c = row("/r/c", FileSystemEntryKind::File, 0);
    states.sync(&vec![a.clone(), b.clone(), b.clone()]);
    states.get("/r/b").unwrap().set(7);
    handle.set(states.get("/r/a").unwrap().get());
    states.sync(&vec![b, c]);
    assert!(states.get("/r/a").is_none());
    assert_eq!(states.get("/r/b").unwrap().get(), 7);
    assert_eq!(states.get("/r/c").unwrap().get(), 0);
    assert_eq!(handle.get(), 0);
    states.clear();
    assert!(states.get("/r/b").is_none());
    states.sync(&vec![a]);
    assert_eq!(states.get("/r/a").unwrap().get(), 0);
}

#[test]
fn pointer_on_a_row() {
    assert!(matches!(
        row_action(3, Pointer::Click),
        ServerFileBrowserAction::ClickEntry(3)
    ));
    assert!(matches!(
        row_action(4, Pointer::DoubleClick),
        ServerFileBrowserAction::OpenEntry(4)
    ));
    let place = Vector2F::new(1.0, 2.0);
    assert!(matches!(
        row_action(5, Pointer::RightClick { position: place }),
        ServerFileBrowserAction::OpenContextMenu { index: 5, position } if position == place
    ));
}

#[derive(Debug)]
struct State {
    mark: std::cell::Cell<u32>,
}

impl Default for State {
    fn default() -> Self {
        State { mark: std::cell::Cell::new(1) }
    }
}

fn marks(drawn: &DrawnBrowser<State>) -> Vec<u32> {
    (0..drawn.browser().entries().len())
        .map(|index| drawn.row(index, "changed").unwrap().1.mark.get())
        .collect()
}

fn mark(drawn: &DrawnBrowser<State>, index: usize, value: u32) {
    drawn.row(index, "changed").unwrap().1.mark.set(value);
}

#[test]
fn drawn_rows_keep_their_state() {
    let mut drawn: DrawnBrowser<State> = DrawnBrowser::new();
    assert!(drawn.row(0, "changed").is_none());
    drawn.set_remote_root("h".to_string(), "/r".to_string(), None, true);
    let entries = || {
        vec![
            row("/r/d", FileSystemEntryKind::Directory, 0),
            row("/r/f", FileSystemEntryKind::File, 0),
        ]
    };
    drawn.finish_load(Ok(("/r".to_string(), entries())));
    assert_eq!(marks(&drawn), vec![1, 1]);
    mark(&drawn, 0, 7);
    mark(&drawn, 1, 8);
    drawn.on_left_panel_focused();
    drawn.on_focus(true);
    drawn.handle_menu_event(true);
    assert_eq!(marks(&drawn), vec![7, 8]);
    let toggle = || ServerFileBrowserAction::ToggleDirectory("/r/d".to_string());
    drawn.try_handle_action(toggle(), true, "").unwrap();
    assert_eq!(marks(&drawn), vec![7, 8]);
    let children = vec![row("/r/d/x", FileSystemEntryKind::File, 0)];
    drawn.try_finish_toggle(Ok(("/r/d".to_string(), children)), 1).unwrap();
    assert_eq!(marks(&drawn), vec![7, 1, 8]);
    mark(&drawn, 1, 9);
    drawn.try_handle_action(toggle(), true, "").unwrap();
    drawn.try_handle_action(toggle(), true, "").unwrap();
    assert_eq!(marks(&drawn), vec![7, 1, 8]);
    drawn.finish_load(Err(Status::Text("denied".to_string())));
    drawn.finish_transfer(Ok(()), true);
    assert_eq!(marks(&drawn), vec![7, 1, 8]);
    drawn.finish_load(Ok(("/r".to_string(), entries())));
    assert_eq!(marks(&drawn), vec![1, 1]);
}

#[test]
fn drawn_browser_refuses_what_the_browser_refuses() {
    let mut drawn: DrawnBrowser<State> = DrawnBrowser::new();
    drawn.set_remote_root("h".to_string(), "/r".to_string(), None, true);
    let entries = vec![row("/r/d", FileSystemEntryKind::Directory, 0)];
    drawn.finish_load(Ok(("/r".to_string(), entries)));
    drawn.try_handle_action(ServerFileBrowserAction::ClickEntry(0), true, "").unwrap();
    mark(&drawn, 0, 5);
    let looping = vec![row("/r/d", FileSystemEntryKind::Directory, 0)];
    assert!(drawn.try_finish_toggle(Ok(("/r/d".to_string(), looping)), 1).is_none());
    assert_eq!(marks(&drawn), vec![5]);
    drawn.handle_editor_event(EditorEvent::Enter, "/q", true);
    assert!(drawn.browser().is_loading());
    let found = ResolvedRemotePath {
        canonical_path: "/q".to_string(),
        kind: FileSystemEntryKind::Directory,
    };
    drawn.finish_resolve_and_open(Ok(found), None, true);
    assert_eq!(drawn.browser().current_path(), "/q");
    assert_eq!(marks(&drawn), vec![5]);
}
