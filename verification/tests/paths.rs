use remote_files::paths::{file_name, join_remote_path, remote_basename, remote_parent};
use remote_files::text::{
    chars_of, concat3, concat4, decimal_text, same_text, split_text, string_of,
    text_before, trim,
};

#[test]
fn joins_with_one_slash() {
    assert_eq!(join_remote_path("/", "etc"), "/etc");
    assert_eq!(join_remote_path("/home/me", "a.txt"), "/home/me/a.txt");
    assert_eq!(join_remote_path("/home/me/", "a.txt"), "/home/me/a.txt");
    assert_eq!(join_remote_path("", "a"), "/a");
    assert_eq!(join_remote_path("/srv", ""), "/srv/");
    assert_eq!(join_remote_path("~", "a"), "~/a");
}

#[test]
fn joining_turns_backslashes_into_slashes() {
    assert_eq!(join_remote_path("/srv", "a\\b\\c"), "/srv/a/b/c");
    assert_eq!(join_remote_path("C:\\x", "y"), "C:\\x/y");
}

#[test]
fn parents() {
    assert_eq!(remote_parent("/home/me/a.txt").as_deref(), Some("/home/me"));
    assert_eq!(remote_parent("/home/me///").as_deref(), Some("/home"));
    assert_eq!(remote_parent("/etc").as_deref(), Some("/"));
    assert_eq!(remote_parent("a/b").as_deref(), Some("a"));
    assert_eq!(remote_parent("a"), None);
    assert_eq!(remote_parent("a/"), None);
    assert_eq!(remote_parent("/"), None);
    assert_eq!(remote_parent(""), None);
    assert_eq!(remote_parent("a//b").as_deref(), Some("a/"));
    assert_eq!(remote_parent("/größe/ü").as_deref(), Some("/größe"));
}

#[test]
fn file_names_are_those_of_the_standard_library() {
    let paths = [
        "/usr/bin/", "tmp/foo.txt", "foo.txt/.", "foo.txt/.//", "foo.txt/..", "/", "", ".", "..",
        "./a", "a/./b", "a//", "/..", "../x", "a/..b", "größe/ü",
    ];
    for path in paths {
        let expected = std::path::Path::new(path)
            .file_name()
            .map(|name| name.to_string_lossy().to_string());
        assert_eq!(file_name(path), expected);
        let fallback = path.trim_end_matches('/').rsplit('/').next().map(str::to_string);
        assert_eq!(remote_basename(path), expected.or(fallback));
    }
}

#[test]
fn basenames() {
    assert_eq!(remote_basename("/home/me/a.txt").as_deref(), Some("a.txt"));
    assert_eq!(remote_basename("/home/me/").as_deref(), Some("me"));
    assert_eq!(remote_basename("/").as_deref(), Some(""));
    assert_eq!(remote_basename("a/..").as_deref(), Some(".."));
    assert_eq!(remote_basename("").as_deref(), Some(""));
}

#[test]
fn parent_and_basename_undo_join() {
    for base in ["/", "/home/me", "relative"] {
        for name in ["a", "a.txt", "..hidden", "ü ü"] {
            let path = join_remote_path(base, name);
            assert_eq!(remote_parent(&path).as_deref(), Some(base));
            assert_eq!(remote_basename(&path).as_deref(), Some(name));
            assert!(path.len() > base.len());
        }
    }
}

#[test]
fn joining_a_dot_loses_the_name() {
    let path = join_remote_path("/home/me", ".");
    assert_eq!(path, "/home/me/.");
    assert_eq!(remote_basename(&path).as_deref(), Some("me"));
}

#[test]
fn trims_like_the_standard_library() {
    let samples = [
        "", " ", "a", " a b ", "\t\n\u{b}\u{c}\r a", "\u{85}\u{a0}\u{1680}x\u{2003}\u{2028}",
        "\u{2029}\u{202f}\u{205f}\u{3000}", "\u{200b}x\u{200b}", "\u{180e}x", "\u{1c}x\u{1f}",
    ];
    for sample in samples {
        assert_eq!(trim(sample), sample.trim());
    }
    for code in 0..0x3100u32 {
        if let Some(c) = char::from_u32(code) {
            let text = c.to_string();
            assert_eq!(trim(&text), text.trim());
        }
    }
}

#[test]
fn splits_like_the_standard_library() {
    for sample in ["", "\0", "a\0b", "a\0\0b\0", "\0\0", "ü\0ß"] {
        let expected: Vec<String> = sample.split('\0').map(str::to_string).collect();
        assert_eq!(split_text(sample, '\0'), expected);
    }
}

#[test]
fn orders_like_the_standard_library() {
    let samples = ["", "a", "A", "aa", "ab", "b", "z", "ß", "é", "\u{ffff}", "\u{10000}", "a\0"];
    for a in samples {
        for b in samples {
            assert_eq!(text_before(a, b), a < b);
            assert_eq!(same_text(a, b), a == b);
        }
    }
}

#[test]
fn writes_numbers_in_base_ten() {
    for n in [0, 7, 9, 10, 99, 100, 1_234_567_890, u64::MAX] {
        assert_eq!(decimal_text(n), n.to_string());
    }
}

#[test]
fn puts_strings_together() {
    assert_eq!(concat3("a", "", "c"), "ac");
    assert_eq!(concat4("a", "b", "c", "d"), "abcd");
    assert_eq!(string_of(&chars_of("größe")), "größe");
}
