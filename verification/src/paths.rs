//! Paths on the remote host, as text with `/` between the components.

use crate::text::{
    chars_of, concat, concat3, opt_text, same_text, split, split_text, string_of, texts,
};
use vstd::prelude::*;

verus! {

/// `name` with every backslash turned into a slash.
pub open spec fn forward_slashes(name: Seq<char>) -> Seq<char> {
    name.map_values(
        |c: char|
            if c == '\\' {
                '/'
            } else {
                c
            },
    )
}

/// The path of `name` below `base`: exactly one slash is put between the two, unless `base`
/// brings one.
pub open spec fn joined(base: Seq<char>, name: Seq<char>) -> Seq<char> {
    if base.len() > 0 && base.last() == '/' {
        base + forward_slashes(name)
    } else {
        base + seq!['/'] + forward_slashes(name)
    }
}

/// `path` without the slashes at its end.
pub open spec fn strip_slashes(path: Seq<char>) -> Seq<char>
    decreases path.len(),
{
    if path.len() > 0 && path.last() == '/' {
        strip_slashes(path.drop_last())
    } else {
        path
    }
}

/// The position of the last slash of `path`, or -1 if there is none.
pub open spec fn last_slash(path: Seq<char>) -> int
    decreases path.len(),
{
    if path.len() == 0 {
        -1
    } else if path.last() == '/' {
        path.len() - 1
    } else {
        last_slash(path.drop_last())
    }
}

/// What stands before the last component of `path`, if a slash does.
pub open spec fn parent_of(path: Seq<char>) -> Option<Seq<char>> {
    let stripped = strip_slashes(path);
    let slash = last_slash(stripped);
    if slash < 0 {
        None
    } else if slash == 0 {
        Some(seq!['/'])
    } else {
        Some(stripped.take(slash))
    }
}

/// Whether `part`, found between two slashes, is a component: an empty part and `.` are not.
pub open spec fn is_component(part: Seq<char>) -> bool {
    part.len() > 0 && part != seq!['.']
}

/// The last component of `path`, unless there is none or it is `..`.
pub open spec fn file_name_of(path: Seq<char>) -> Option<Seq<char>> {
    let components = split(path, '/').filter(|part: Seq<char>| is_component(part));
    if components.len() == 0 || components.last() == seq!['.', '.'] {
        None
    } else {
        Some(components.last())
    }
}

/// The name under which `path` is shown: its file name, or else what stands behind the last
/// slash that is not at the end.
pub open spec fn basename_of(path: Seq<char>) -> Seq<char> {
    match file_name_of(path) {
        Some(name) => name,
        None => split(strip_slashes(path), '/').last(),
    }
}

/// The path of `name` below `base`.
pub fn join_remote_path(base: &str, name: &str) -> (path: String)
    ensures
        path@ == joined(base@, name@),
{
    let mut normalized: String = String::new();
    for c in it: name.chars()
        invariant
            it.seq() == name@,
            normalized@ == forward_slashes(name@.take(it.index())),
    {
        if c == '\\' {
            normalized.push('/');
        } else {
            normalized.push(c);
        }
        assert(normalized@ == forward_slashes(name@.take(it.index() + 1)));
    }
    assert(name@.take(name@.len() as int) == name@);
    proof {
        reveal_strlit("/");
        assert("/"@ == seq!['/']);
    }
    if ends_with_slash(base) {
        concat(base, normalized.as_str())
    } else {
        concat3(base, "/", normalized.as_str())
    }
}

fn ends_with_slash(path: &str) -> (ends: bool)
    ensures
        ends == (path@.len() > 0 && path@.last() == '/'),
{
    let chars: Vec<char> = chars_of(path);
    chars.len() > 0 && chars[chars.len() - 1] == '/'
}

/// The number of characters that are left of `path` once the slashes at its end are gone.
fn stripped_len(path: &Vec<char>) -> (len: usize)
    ensures
        len <= path@.len(),
        path@.take(len as int) == strip_slashes(path@),
{
    let mut len: usize = path.len();
    assert(path@.take(len as int) == path@);
    while len > 0 && path[len - 1] == '/'
        invariant
            len <= path@.len(),
            strip_slashes(path@.take(len as int)) == strip_slashes(path@),
        decreases len,
    {
        assert(path@.take(len as int).drop_last() == path@.take(len - 1));
        len = len - 1;
    }
    len
}

/// The directory that holds `path`.
///
/// Slashes at the end of `path` do not count. The result is `None` if no slash is left, and the
/// root directory for what lies directly below it.
pub fn remote_parent(path: &str) -> (parent: Option<String>)
    ensures
        opt_text(parent) == parent_of(path@),
{
    let chars: Vec<char> = chars_of(path);
    let len: usize = stripped_len(&chars);
    let ghost stripped = strip_slashes(path@);
    let mut end: usize = len;
    assert(chars@.take(end as int) == stripped);
    while end > 0 && chars[end - 1] != '/'
        invariant
            end <= len <= chars@.len(),
            last_slash(chars@.take(end as int)) == last_slash(stripped),
        decreases end,
    {
        assert(chars@.take(end as int).drop_last() == chars@.take(end - 1));
        end = end - 1;
    }
    if end == 0 {
        None
    } else if end == 1 {
        proof {
            reveal_strlit("/");
            assert("/"@ == seq!['/']);
        }
        Some("/".to_owned())
    } else {
        assert(stripped.take(end - 1) == chars@.subrange(0, end - 1));
        Some(string_of(vstd::slice::slice_subrange(chars.as_slice(), 0, end - 1)))
    }
}

/// The last component of `path`, unless there is none or it is `..`.
pub fn file_name(path: &str) -> (name: Option<String>)
    ensures
        opt_text(name) == file_name_of(path@),
{
    proof {
        reveal_strlit(".");
        reveal_strlit("..");
        assert("."@ == seq!['.']);
        assert(".."@ == seq!['.', '.']);
    }
    let parts: Vec<String> = split_text(path, '/');
    let ghost all = texts(parts@);
    let ghost pred = |part: Seq<char>| is_component(part);
    let mut end: usize = parts.len();
    assert(all.take(end as int) == all);
    while end > 0 && (parts[end - 1].as_str().is_empty() || same_text(
        parts[end - 1].as_str(),
        ".",
    ))
        invariant
            end <= parts@.len(),
            all == texts(parts@),
            all.take(end as int).filter(pred) == all.filter(pred),
            pred == (|part: Seq<char>| is_component(part)),
            "."@ == seq!['.'],
        decreases end,
    {
        assert(all.take(end as int).drop_last() == all.take(end - 1));
        reveal(Seq::filter);
        end = end - 1;
    }
    reveal(Seq::filter);
    if end == 0 {
        return None;
    }
    assert(all.take(end as int).last() == parts@[end - 1]@);
    if same_text(parts[end - 1].as_str(), "..") {
        None
    } else {
        Some(parts[end - 1].clone())
    }
}

/// The name under which `path` is shown: its file name, or else what stands behind the last
/// slash that is not at the end. There always is one, if only an empty one.
pub fn remote_basename(path: &str) -> (name: Option<String>)
    ensures
        name matches Some(n) && n@ == basename_of(path@),
{
    match file_name(path) {
        Some(name) => Some(name),
        None => {
            let chars: Vec<char> = chars_of(path);
            let len: usize = stripped_len(&chars);
            assert(chars@.subrange(0, len as int) == strip_slashes(path@));
            let stripped: String = string_of(
                vstd::slice::slice_subrange(chars.as_slice(), 0, len),
            );
            let parts: Vec<String> = split_text(stripped.as_str(), '/');
            proof {
                split_is_nonempty(stripped@, '/');
                assert(texts(parts@).len() == parts@.len());
            }
            Some(parts[parts.len() - 1].clone())
        },
    }
}

/// Splitting gives at least one part.
pub proof fn split_is_nonempty(s: Seq<char>, sep: char)
    ensures
        split(s, sep).len() > 0,
    decreases s.len(),
{
    if s.len() > 0 {
        split_is_nonempty(s.drop_last(), sep);
    }
}

/// Whether `name` can be the name of one file: it is not empty and holds no separator.
pub open spec fn is_plain_name(name: Seq<char>) -> bool {
    &&& name.len() > 0
    &&& !name.contains('/')
    &&& !name.contains('\\')
}

proof fn plain_name_is_kept(name: Seq<char>)
    requires
        is_plain_name(name),
    ensures
        forward_slashes(name) == name,
        name.last() != '/',
{
    assert forall|i: int| 0 <= i < name.len() implies name[i] != '\\' && name[i] != '/' by {
        assert(name.contains(name[i]));
    }
    assert(forward_slashes(name) == name);
}

proof fn last_slash_before_name(front: Seq<char>, name: Seq<char>)
    requires
        !name.contains('/'),
    ensures
        last_slash(front + name) == last_slash(front),
    decreases name.len(),
{
    if name.len() == 0 {
        assert(front + name == front);
    } else {
        assert(name.contains(name.last()));
        let rest = name.drop_last();
        assert(!rest.contains('/')) by {
            if rest.contains('/') {
                let i = rest.index_of('/');
                assert(name[i] == '/');
            }
        }
        last_slash_before_name(front, rest);
        assert((front + name).drop_last() == front + rest);
    }
}

proof fn split_before_name(front: Seq<char>, name: Seq<char>)
    requires
        !name.contains('/'),
    ensures
        split(front + seq!['/'] + name, '/') == split(front, '/').push(name),
    decreases name.len(),
{
    let whole = front + seq!['/'] + name;
    if name.len() == 0 {
        assert(whole.drop_last() == front);
        assert(name == Seq::<char>::empty());
    } else {
        assert(name.contains(name.last()));
        let rest = name.drop_last();
        assert(!rest.contains('/')) by {
            if rest.contains('/') {
                let i = rest.index_of('/');
                assert(name[i] == '/');
            }
        }
        split_before_name(front, rest);
        assert(whole.drop_last() == front + seq!['/'] + rest);
        assert(split(front, '/').push(rest).drop_last() == split(front, '/'));
        assert(rest.push(name.last()) == name);
    }
}

/// The parent of what was joined is the directory it was joined to, for the root directory and
/// for a directory written without a slash at its end.
pub proof fn parent_undoes_join(base: Seq<char>, name: Seq<char>)
    requires
        base == seq!['/'] || (base.len() > 0 && base.last() != '/'),
        is_plain_name(name),
    ensures
        parent_of(joined(base, name)) == Some(base),
{
    plain_name_is_kept(name);
    let path = joined(base, name);
    assert(path.last() == name.last());
    assert(strip_slashes(path) == path);
    if base == seq!['/'] {
        last_slash_before_name(base, name);
        assert(last_slash(base) == 0);
    } else {
        last_slash_before_name(base + seq!['/'], name);
        assert(path.take(base.len() as int) == base);
    }
}

/// The name of what was joined is the name that was joined, unless that is a single dot.
pub proof fn basename_undoes_join(base: Seq<char>, name: Seq<char>)
    requires
        is_plain_name(name),
        name != seq!['.'],
    ensures
        basename_of(joined(base, name)) == name,
{
    plain_name_is_kept(name);
    let path = joined(base, name);
    let front = if base.len() > 0 && base.last() == '/' {
        base.drop_last()
    } else {
        base
    };
    assert(path == front + seq!['/'] + name);
    split_before_name(front, name);
    let parts = split(path, '/');
    let pred = |part: Seq<char>| is_component(part);
    reveal(Seq::filter);
    assert(parts.drop_last() == split(front, '/'));
    assert(parts.filter(pred) == split(front, '/').filter(pred).push(name));
    assert(path.last() == name.last());
    assert(strip_slashes(path) == path);
}

/// A path below a directory is longer than the directory's own.
pub proof fn join_extends(base: Seq<char>, name: Seq<char>)
    requires
        name.len() > 0,
    ensures
        joined(base, name).len() > base.len(),
        base.is_prefix_of(joined(base, name)),
{
    assert(joined(base, name).take(base.len() as int) == base);
}

/// Joining puts `name` behind `base`, with one slash between them unless `base` brings one; each
/// backslash of the name becomes a slash, and nothing else is changed.
pub proof fn joined_is_exact(base: Seq<char>, name: Seq<char>)
    ensures
        ({
            let front = if base.len() > 0 && base.last() == '/' {
                base
            } else {
                base + seq!['/']
            };
            let path = joined(base, name);
            &&& path.len() == front.len() + name.len()
            &&& path.take(front.len() as int) == front
            &&& forall|i: int|
                0 <= i < name.len() ==> path[front.len() + i] == if #[trigger] name[i] == '\\' {
                    '/'
                } else {
                    name[i]
                }
            &&& !name.contains('\\') ==> path == front + name
        }),
{
    let front = if base.len() > 0 && base.last() == '/' {
        base
    } else {
        base + seq!['/']
    };
    let path = joined(base, name);
    assert(path.take(front.len() as int) =~= front);
    if !name.contains('\\') {
        assert forall|i: int| 0 <= i < name.len() implies name[i] != '\\' by {
            assert(name.contains(name[i]));
        }
        assert(path =~= front + name);
    }
}

proof fn slashes_at_the_end_do_not_count(path: Seq<char>, n: nat)
    ensures
        strip_slashes(path + Seq::new(n, |i: int| '/')) == strip_slashes(path),
    decreases n,
{
    let slashes = Seq::new(n, |i: int| '/');
    if n == 0 {
        assert(path + slashes =~= path);
    } else {
        let fewer = Seq::new((n - 1) as nat, |i: int| '/');
        assert((path + slashes).drop_last() =~= path + fewer);
        assert((path + slashes).last() == '/');
        slashes_at_the_end_do_not_count(path, (n - 1) as nat);
    }
}

proof fn no_slash_to_find(name: Seq<char>)
    requires
        !name.contains('/'),
    ensures
        last_slash(name) == -1,
        strip_slashes(name) == name,
        split(name, '/') == seq![name],
    decreases name.len(),
{
    if name.len() > 0 {
        assert(name.contains(name.last()));
        let rest = name.drop_last();
        assert(!rest.contains('/')) by {
            if rest.contains('/') {
                assert(name[rest.index_of('/')] == '/');
            }
        }
        no_slash_to_find(rest);
        assert(split(name, '/') =~= seq![name]) by {
            assert(rest.push(name.last()) =~= name);
        }
    } else {
        assert(name =~= Seq::empty());
    }
}

proof fn name_behind_a_slash(directory: Seq<char>, name: Seq<char>)
    requires
        name.len() > 0,
        !name.contains('/'),
    ensures
        strip_slashes(directory + seq!['/'] + name) == directory + seq!['/'] + name,
        last_slash(directory + seq!['/'] + name) == directory.len(),
{
    let front = directory + seq!['/'];
    assert(name.contains(name.last()));
    assert((front + name).last() == name.last());
    last_slash_before_name(front, name);
    assert(front.last() == '/');
}

/// The parent of a path is what stands before its last component, or the root directory if that is
/// nothing. Slashes at the end do not count, and what has no other slash has no parent.
pub proof fn parent_stands_before_the_last_component(
    directory: Seq<char>,
    name: Seq<char>,
    slashes: nat,
)
    requires
        !name.contains('/'),
    ensures
        ({
            let end = Seq::new(slashes, |i: int| '/');
            &&& name.len() > 0 ==> parent_of(directory + seq!['/'] + name + end) == Some(
                if directory.len() == 0 {
                    seq!['/']
                } else {
                    directory
                },
            )
            &&& parent_of(name + end) is None
        }),
{
    let whole = directory + seq!['/'] + name;
    slashes_at_the_end_do_not_count(whole, slashes);
    slashes_at_the_end_do_not_count(name, slashes);
    no_slash_to_find(name);
    if name.len() > 0 {
        name_behind_a_slash(directory, name);
        assert(whole.take(directory.len() as int) =~= directory);
    }
}

/// The file name is the last component: an empty component and `.` do not count, and `..` is no
/// file name.
pub proof fn file_name_is_the_last_component(front: Seq<char>, name: Seq<char>)
    requires
        !name.contains('/'),
    ensures
        ({
            let whole = front + seq!['/'] + name;
            &&& name.len() == 0 || name == seq!['.'] ==> file_name_of(whole) == file_name_of(front)
                && file_name_of(name) is None
            &&& name == seq!['.', '.'] ==> file_name_of(whole) is None && file_name_of(name) is None
            &&& name.len() > 0 && name != seq!['.'] && name != seq!['.', '.'] ==> file_name_of(
                whole,
            ) == Some(name) && file_name_of(name) == Some(name)
        }),
{
    reveal(Seq::filter);
    let pred = |part: Seq<char>| is_component(part);
    split_before_name(front, name);
    no_slash_to_find(name);
    let parts = split(front, '/');
    assert(parts.push(name).drop_last() =~= parts);
    assert(seq![name].drop_last() =~= Seq::<Seq<char>>::empty());
    assert(Seq::<Seq<char>>::empty().filter(pred) =~= Seq::<Seq<char>>::empty());
    if is_component(name) {
        assert(parts.push(name).filter(pred) == parts.filter(pred).push(name));
        assert(seq![name].filter(pred) =~= seq![name]);
    } else {
        assert(parts.push(name).filter(pred) == parts.filter(pred));
        assert(seq![name].filter(pred) =~= Seq::<Seq<char>>::empty());
    }
}

/// A path is shown under its file name or, where it has none, under what stands behind the last
/// slash that is not at its end.
pub proof fn basename_is_the_file_name_or_the_end(
    directory: Seq<char>,
    name: Seq<char>,
    slashes: nat,
)
    requires
        !name.contains('/'),
    ensures
        ({
            let end = Seq::new(slashes, |i: int| '/');
            let whole = directory + seq!['/'] + name + end;
            &&& file_name_of(whole) matches Some(found) ==> basename_of(whole) == found
            &&& file_name_of(whole) is None && name.len() > 0 ==> basename_of(whole) == name
            &&& file_name_of(name + end) matches Some(found) ==> basename_of(name + end) == found
            &&& file_name_of(name + end) is None ==> basename_of(name + end) == name
        }),
{
    let end = Seq::new(slashes, |i: int| '/');
    slashes_at_the_end_do_not_count(directory + seq!['/'] + name, slashes);
    slashes_at_the_end_do_not_count(name, slashes);
    no_slash_to_find(name);
    split_before_name(directory, name);
    if name.len() > 0 {
        name_behind_a_slash(directory, name);
    }
}

} // verus!
