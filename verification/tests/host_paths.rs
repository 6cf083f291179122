use remote_files::host_path::{
    daemon_dir_path, daemon_dir_with_home, expand_path, expand_with_home, pid_path, socket_path,
    HostPath,
};
use std::path::{Path, PathBuf};

fn home(path: &str) -> Option<HostPath> {
    Some(HostPath::from_text(path))
}

#[test]
fn home_directory_takes_the_place_of_a_tilde() {
    assert_eq!(expand_with_home("~", home("/home/me")).to_text(), "/home/me");
    assert_eq!(expand_with_home("~/a/b", home("/home/me")).to_text(), "/home/me/a/b");
    assert_eq!(expand_with_home("~/", home("/home/me")).to_text(), "/home/me/");
    assert_eq!(expand_with_home("~/a", home("/")).to_text(), "/a");
    assert_eq!(expand_with_home("~//a", home("/home/me")).to_text(), "/a");
}

#[test]
fn other_paths_are_not_touched() {
    for path in ["", "/", "/a/~", "a/~/b", "~user", "~user/a", " ~", "a~"] {
        assert_eq!(expand_with_home(path, home("/home/me")).to_text(), path);
        assert_eq!(expand_path(path).to_text(), path);
    }
}

#[test]
fn without_a_home_directory_paths_stay() {
    assert_eq!(expand_with_home("~", None).to_text(), "~");
    assert_eq!(expand_with_home("~/a", None).to_text(), "~/a");
    assert_eq!(expand_with_home("/a", None).to_text(), "/a");
}

#[test]
fn the_system_knows_the_home_directory() {
    let expected = dirs::home_dir();
    let found = PathBuf::from(expand_path("~").to_text());
    assert_eq!(found, expected.clone().unwrap_or_else(|| PathBuf::from("~")));
    let below = PathBuf::from(expand_path("~/x").to_text());
    assert_eq!(below, expected.map_or(PathBuf::from("~/x"), |home| home.join("x")));
}

#[test]
fn joins_like_the_standard_library() {
    for base in ["", "/", "/a", "/a/", "a", "."] {
        for tail in ["", "b", "b/c", "/abs", "./b", "b/"] {
            let expected = Path::new(base).join(tail);
            let joined = HostPath::from_text(base).join(tail);
            assert_eq!(joined.to_text(), expected.to_str().unwrap());
        }
    }
}

#[test]
fn daemon_directory_lies_below_the_home_directory() {
    let dir = daemon_dir_with_home("key", None, home("/home/me"));
    assert_eq!(dir.to_text(), "/home/me/.openwarp/remote-server/key");
    assert_eq!(socket_path(&dir).to_text(), "/home/me/.openwarp/remote-server/key/server.sock");
    assert_eq!(pid_path(&dir).to_text(), "/home/me/.openwarp/remote-server/key/server.pid");
    let dir = daemon_dir_with_home("key", Some("other"), home("/home/me"));
    assert_eq!(dir.to_text(), "/home/me/other/remote-server/key");
    let dir = daemon_dir_with_home("key", None, None);
    assert_eq!(dir.to_text(), "./.openwarp/remote-server/key");
    let dir = daemon_dir_with_home("key", Some(""), home("/home/me"));
    assert_eq!(dir.to_text(), "/home/me/remote-server/key");
}

#[test]
fn absolute_base_directory_is_used_as_it_is() {
    for home in [home("/home/me"), None] {
        let dir = daemon_dir_with_home("key", Some("/var/warp"), home);
        assert_eq!(dir.to_text(), "/var/warp/remote-server/key");
    }
    assert_eq!(
        daemon_dir_path("key", Some("/var/warp")).to_text(),
        "/var/warp/remote-server/key"
    );
}

#[test]
fn daemon_directory_of_this_user() {
    let home = dirs::home_dir().unwrap_or_else(|| PathBuf::from("."));
    let expected = home.join(".openwarp").join("remote-server").join("key");
    assert_eq!(PathBuf::from(daemon_dir_path("key", None).to_text()), expected);
}

#[test]
fn bytes_that_are_no_text_are_replaced() {
    let path = HostPath { bytes: vec![b'/', b'a', 0xff, b'b'] };
    assert_eq!(path.to_text(), "/a\u{fffd}b");
    let path = HostPath { bytes: "/größe".as_bytes().to_vec() };
    assert_eq!(path.to_text(), "/größe");
}
