//! Paths on the daemon's own host, as bytes with `/` between the components.

use crate::text::{chars_of, from_utf8_lossy, lossy_utf8, opt_str, string_of};
use vstd::prelude::*;
use vstd::slice::{slice_subrange, slice_to_vec};
use vstd::utf8::encode_utf8;

verus! {

/// A path on the daemon's host.
#[derive(Debug)]
pub struct HostPath {
    pub bytes: Vec<u8>,
}

impl View for HostPath {
    type V = Seq<u8>;

    open spec fn view(&self) -> Seq<u8> {
        self.bytes@
    }
}

/// The bytes of the path, if there is one.
pub open spec fn opt_path(path: Option<HostPath>) -> Option<Seq<u8>> {
    match path {
        Some(path) => Some(path@),
        None => None,
    }
}

/// The byte that stands between the components of a path.
pub const SLASH: u8 = 47;

/// The path `relative`, seen from `base`: an absolute path stays as it is, any other is put
/// behind `base`, with one slash between them.
pub open spec fn seen_from(base: Seq<u8>, relative: Seq<u8>) -> Seq<u8> {
    if relative.len() > 0 && relative[0] == SLASH {
        relative
    } else if base.len() > 0 && base.last() != SLASH {
        base.push(SLASH) + relative
    } else {
        base + relative
    }
}

/// What is left of `path` behind `~/`, if it begins so.
pub open spec fn below_home(path: Seq<char>) -> Option<Seq<char>> {
    if path.len() >= 2 && path[0] == '~' && path[1] == '/' {
        Some(path.skip(2))
    } else {
        None
    }
}

/// `path` with the home directory in place of a `~` that is its first component. Without a home
/// directory the path stays as it is.
pub open spec fn expanded(path: Seq<char>, home: Option<Seq<u8>>) -> Seq<u8> {
    match home {
        Some(home) => if path == seq!['~'] {
            home
        } else if below_home(path) is Some {
            seen_from(home, encode_utf8(below_home(path)->0))
        } else {
            encode_utf8(path)
        },
        None => encode_utf8(path),
    }
}

/// Whether the meaning of `path` depends on the home directory.
pub open spec fn mentions_home(path: Seq<char>) -> bool {
    path == seq!['~'] || below_home(path) is Some
}

/// The directory of the daemon that serves `identity_key`: below the directory `base`, which is
/// seen from the home directory, or from the working directory if there is no home directory.
pub open spec fn daemon_dir(
    base: Option<Seq<char>>,
    home: Option<Seq<u8>>,
    identity_key: Seq<char>,
) -> Seq<u8> {
    let home = match home {
        Some(home) => home,
        None => encode_utf8("."@),
    };
    let base = match base {
        Some(base) => base,
        None => ".openwarp"@,
    };
    let root = if base.len() > 0 && base[0] == '/' {
        encode_utf8(base)
    } else {
        seen_from(home, encode_utf8(base))
    };
    seen_from(seen_from(root, encode_utf8("remote-server"@)), encode_utf8(identity_key))
}

/// Calls `dirs::home_dir`, which looks at the environment and, on some systems, at the user
/// database. Nothing is claimed of what it finds.
#[verifier::external_body]
fn home_dir() -> (home: Option<Vec<u8>>) {
    dirs::home_dir().map(|home| home.into_os_string().into_encoded_bytes())
}

impl HostPath {
    /// The path that `text` writes down.
    pub fn from_text(text: &str) -> (path: HostPath)
        ensures
            path@ == encode_utf8(text@),
    {
        HostPath { bytes: slice_to_vec(text.as_bytes()) }
    }

    /// The path `relative`, seen from this one.
    pub fn join(&self, relative: &str) -> (path: HostPath)
        ensures
            path@ == seen_from(self@, encode_utf8(relative@)),
    {
        let tail: &[u8] = relative.as_bytes();
        if tail.len() > 0 && tail[0] == SLASH {
            return HostPath { bytes: slice_to_vec(tail) };
        }
        let mut bytes: Vec<u8> = slice_to_vec(self.bytes.as_slice());
        if bytes.len() > 0 && bytes[bytes.len() - 1] != SLASH {
            bytes.push(SLASH);
        }
        let mut tail: Vec<u8> = slice_to_vec(tail);
        bytes.append(&mut tail);
        HostPath { bytes }
    }

    /// The path as text; what is not valid UTF-8 is replaced.
    pub fn to_text(&self) -> (text: String)
        ensures
            text@ == lossy_utf8(self@),
    {
        from_utf8_lossy(self.bytes.as_slice())
    }
}

/// `path` with `home` in place of a `~` that is its first component.
pub fn expand_with_home(path: &str, home: Option<HostPath>) -> (full: HostPath)
    ensures
        full@ == expanded(path@, opt_path(home)),
{
    let chars: Vec<char> = chars_of(path);
    match home {
        None => HostPath::from_text(path),
        Some(home) => {
            if chars.len() == 1 && chars[0] == '~' {
                assert(path@ =~= seq!['~']);
                home
            } else if chars.len() >= 2 && chars[0] == '~' && chars[1] == '/' {
                let rest: String = string_of(slice_subrange(chars.as_slice(), 2, chars.len()));
                assert(rest@ =~= path@.skip(2));
                home.join(rest.as_str())
            } else {
                HostPath::from_text(path)
            }
        },
    }
}

/// `path` with the user's home directory in place of a `~` that is its first component.
pub fn expand_path(path: &str) -> (full: HostPath)
    ensures
        exists|home: Option<Seq<u8>>| full@ == #[trigger] expanded(path@, home),
        !mentions_home(path@) ==> full@ == encode_utf8(path@),
{
    let home: Option<HostPath> = match home_dir() {
        Some(bytes) => Some(HostPath { bytes }),
        None => None,
    };
    expand_with_home(path, home)
}

/// The directory of the daemon that serves `identity_key`. Its base directory is `base`, or
/// `.openwarp` if none is configured.
pub fn daemon_dir_with_home(
    identity_key: &str,
    base: Option<&str>,
    home: Option<HostPath>,
) -> (dir: HostPath)
    ensures
        dir@ == daemon_dir(
            opt_str(base),
            opt_path(home),
            identity_key@,
        ),
{
    let home: HostPath = match home {
        Some(home) => home,
        None => HostPath::from_text("."),
    };
    let base: &str = match base {
        Some(base) => base,
        None => ".openwarp",
    };
    let chars: Vec<char> = chars_of(base);
    let root: HostPath = if chars.len() > 0 && chars[0] == '/' {
        HostPath::from_text(base)
    } else {
        home.join(base)
    };
    root.join("remote-server").join(identity_key)
}

/// The directory of the daemon that serves `identity_key`, for the user whose home directory the
/// system knows. `base` is the configured base directory, if there is one.
pub fn daemon_dir_path(identity_key: &str, base: Option<&str>) -> (dir: HostPath)
    ensures
        exists|home: Option<Seq<u8>>|
            dir@ == #[trigger] daemon_dir(
                opt_str(base),
                home,
                identity_key@,
            ),
{
    let home: Option<HostPath> = match home_dir() {
        Some(bytes) => Some(HostPath { bytes }),
        None => None,
    };
    daemon_dir_with_home(identity_key, base, home)
}

/// The socket on which the daemon with this directory listens.
pub fn socket_path(dir: &HostPath) -> (path: HostPath)
    ensures
        path@ == seen_from(dir@, encode_utf8("server.sock"@)),
{
    dir.join("server.sock")
}

/// The file in which the daemon with this directory keeps the number of its process.
pub fn pid_path(dir: &HostPath) -> (path: HostPath)
    ensures
        path@ == seen_from(dir@, encode_utf8("server.pid"@)),
{
    dir.join("server.pid")
}

/// Where the home directory is not mentioned, it does not matter which it is.
pub proof fn other_paths_stay(path: Seq<char>, home: Option<Seq<u8>>)
    requires
        !mentions_home(path),
    ensures
        expanded(path, home) == encode_utf8(path),
{
}

/// A base directory that is absolute is used as it is, whatever the home directory.
pub proof fn absolute_base_ignores_home(
    base: Seq<char>,
    home: Option<Seq<u8>>,
    other: Option<Seq<u8>>,
    identity_key: Seq<char>,
)
    requires
        base.len() > 0,
        base[0] == '/',
    ensures
        daemon_dir(Some(base), home, identity_key) == daemon_dir(Some(base), other, identity_key),
{
}

/// A path seen from another is itself if it is absolute, and otherwise stands behind the other, with
/// one slash between them unless the other is empty or brings one.
pub proof fn relative_paths_stand_behind(base: Seq<u8>, relative: Seq<u8>)
    ensures
        relative.len() > 0 && relative[0] == 47 ==> seen_from(base, relative) == relative,
        relative.len() == 0 || relative[0] != 47 ==> seen_from(base, relative) == if base.len() == 0
            || base.last() == 47 {
            base + relative
        } else {
            base + seq![47u8] + relative
        },
{
    assert(base.push(SLASH) + relative =~= base + seq![47u8] + relative);
}

/// A tilde alone is the home directory, and what stands behind a tilde and a slash is seen from it.
/// Every other path, and without a home directory every path, stays as it is.
pub proof fn tildes_are_expanded(path: Seq<char>, rest: Seq<char>, home: Seq<u8>)
    ensures
        expanded(seq!['~'], Some(home)) == home,
        expanded(seq!['~', '/'] + rest, Some(home)) == seen_from(home, encode_utf8(rest)),
        path != seq!['~'] && !(path.len() >= 2 && path[0] == '~' && path[1] == '/') ==> expanded(
            path,
            Some(home),
        ) == encode_utf8(path),
        expanded(path, None) == encode_utf8(path),
        mentions_home(path) <==> path == seq!['~'] || (path.len() >= 2 && path[0] == '~' && path[1]
            == '/'),
{
    let below = seq!['~', '/'] + rest;
    assert(below[0] == '~' && below[1] == '/');
    assert(below.skip(2) =~= rest);
    assert(below.len() >= 2);
    assert(seq!['~'].len() == 1);
}

/// The daemon's directory lies below the configured one, or `.openwarp`, in the directory
/// `remote-server`, under the identity key. A directory that is not absolute is seen from the home
/// directory, or from `.` where there is none.
pub proof fn daemon_directory_is_built_up(
    base: Seq<char>,
    home: Seq<u8>,
    key: Seq<char>,
)
    ensures
        ({
            let below = |root: Seq<u8>|
                seen_from(seen_from(root, encode_utf8("remote-server"@)), encode_utf8(key));
            &&& base.len() > 0 && base[0] == '/' ==> daemon_dir(Some(base), Some(home), key)
                == below(encode_utf8(base)) && daemon_dir(Some(base), None, key) == below(
                encode_utf8(base),
            )
            &&& base.len() == 0 || base[0] != '/' ==> daemon_dir(Some(base), Some(home), key)
                == below(seen_from(home, encode_utf8(base))) && daemon_dir(Some(base), None, key)
                == below(seen_from(encode_utf8("."@), encode_utf8(base)))
            &&& daemon_dir(None, Some(home), key) == below(
                seen_from(home, encode_utf8(".openwarp"@)),
            )
            &&& daemon_dir(None, None, key) == below(
                seen_from(encode_utf8("."@), encode_utf8(".openwarp"@)),
            )
        }),
{
    reveal_strlit(".openwarp");
}

/// Taking a path by its bytes keeps it.
pub proof fn paths_are_taken_whole(path: HostPath)
    ensures
        path@ == path.bytes@,
        opt_path(Some(path)) == Some(path.bytes@),
        opt_path(None) is None,
{
}

} // verus!
