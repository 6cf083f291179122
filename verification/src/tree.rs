//! The rows of the browser: the entries of the current directory, with those of the expanded
//! directories below them.

use crate::entry::{DirectoryListings, DirectorySet, ServerFileBrowserEntry};
use vstd::prelude::*;
use vstd::set_lib::lemma_len_subset;

verus! {

/// Whether rows stand below `entry`: it is expanded, and its entries are known.
pub open spec fn is_open(
    entry: ServerFileBrowserEntry,
    expanded: Set<Seq<char>>,
    loaded: Map<Seq<char>, Seq<ServerFileBrowserEntry>>,
) -> bool {
    expanded.contains(entry.path@) && loaded.contains_key(entry.path@)
}

/// Whether no chain of open entries that starts in `entries` has more than `levels` members.
pub open spec fn ends_within(
    entries: Seq<ServerFileBrowserEntry>,
    expanded: Set<Seq<char>>,
    loaded: Map<Seq<char>, Seq<ServerFileBrowserEntry>>,
    levels: nat,
) -> bool
    decreases levels,
{
    forall|i: int|
        0 <= i < entries.len() && is_open(#[trigger] entries[i], expanded, loaded) ==> levels > 0
            && ends_within(loaded[entries[i].path@], expanded, loaded, (levels - 1) as nat)
}

/// Whether every chain of open entries that starts in `entries` ends: no directory is shown
/// below itself.
pub open spec fn ends(
    entries: Seq<ServerFileBrowserEntry>,
    expanded: Set<Seq<char>>,
    loaded: Map<Seq<char>, Seq<ServerFileBrowserEntry>>,
) -> bool {
    exists|levels: nat| ends_within(entries, expanded, loaded, levels)
}

/// `entries`, each followed by the rows below it, down to `levels` levels.
pub open spec fn rows_within(
    entries: Seq<ServerFileBrowserEntry>,
    expanded: Set<Seq<char>>,
    loaded: Map<Seq<char>, Seq<ServerFileBrowserEntry>>,
    levels: nat,
) -> Seq<ServerFileBrowserEntry>
    decreases levels, entries.len(),
{
    if entries.len() == 0 {
        Seq::empty()
    } else {
        let entry = entries.last();
        let before = rows_within(entries.drop_last(), expanded, loaded, levels).push(entry);
        if is_open(entry, expanded, loaded) && levels > 0 {
            before + rows_within(loaded[entry.path@], expanded, loaded, (levels - 1) as nat)
        } else {
            before
        }
    }
}

/// `entries`, each followed by the rows below it.
pub open spec fn rows(
    entries: Seq<ServerFileBrowserEntry>,
    expanded: Set<Seq<char>>,
    loaded: Map<Seq<char>, Seq<ServerFileBrowserEntry>>,
) -> Seq<ServerFileBrowserEntry> {
    rows_within(
        entries,
        expanded,
        loaded,
        choose|levels: nat| ends_within(entries, expanded, loaded, levels),
    )
}

/// The entries that are not indented.
pub open spec fn roots(entries: Seq<ServerFileBrowserEntry>) -> Seq<ServerFileBrowserEntry> {
    entries.filter(|e: ServerFileBrowserEntry| e.depth == 0)
}

/// More levels than there are change nothing.
proof fn more_levels(
    entries: Seq<ServerFileBrowserEntry>,
    expanded: Set<Seq<char>>,
    loaded: Map<Seq<char>, Seq<ServerFileBrowserEntry>>,
    fewer: nat,
    more: nat,
)
    requires
        ends_within(entries, expanded, loaded, fewer),
        fewer <= more,
    ensures
        ends_within(entries, expanded, loaded, more),
        rows_within(entries, expanded, loaded, fewer) == rows_within(
            entries,
            expanded,
            loaded,
            more,
        ),
    decreases fewer, entries.len(),
{
    assert forall|i: int|
        0 <= i < entries.len() && is_open(#[trigger] entries[i], expanded, loaded) implies more > 0
        && ends_within(loaded[entries[i].path@], expanded, loaded, (more - 1) as nat) by {
        more_levels(
            loaded[entries[i].path@],
            expanded,
            loaded,
            (fewer - 1) as nat,
            (more - 1) as nat,
        );
    }
    if entries.len() > 0 {
        let entry = entries.last();
        ends_within_prefix(entries, expanded, loaded, fewer);
        more_levels(entries.drop_last(), expanded, loaded, fewer, more);
        assert(entry == entries[entries.len() - 1]);
        if is_open(entry, expanded, loaded) {
            more_levels(
                loaded[entry.path@],
                expanded,
                loaded,
                (fewer - 1) as nat,
                (more - 1) as nat,
            );
        }
    }
}

proof fn ends_within_prefix(
    entries: Seq<ServerFileBrowserEntry>,
    expanded: Set<Seq<char>>,
    loaded: Map<Seq<char>, Seq<ServerFileBrowserEntry>>,
    levels: nat,
)
    requires
        entries.len() > 0,
        ends_within(entries, expanded, loaded, levels),
    ensures
        ends_within(entries.drop_last(), expanded, loaded, levels),
{
    assert forall|i: int|
        0 <= i < entries.drop_last().len() && is_open(
            #[trigger] entries.drop_last()[i],
            expanded,
            loaded,
        ) implies levels > 0 && ends_within(
        loaded[entries.drop_last()[i].path@],
        expanded,
        loaded,
        (levels - 1) as nat,
    ) by {
        assert(entries.drop_last()[i] == entries[i]);
    }
}

/// The rows do not depend on how many levels are allowed, as long as these suffice.
pub proof fn rows_are_rows_within(
    entries: Seq<ServerFileBrowserEntry>,
    expanded: Set<Seq<char>>,
    loaded: Map<Seq<char>, Seq<ServerFileBrowserEntry>>,
    levels: nat,
)
    requires
        ends_within(entries, expanded, loaded, levels),
    ensures
        rows(entries, expanded, loaded) == rows_within(entries, expanded, loaded, levels),
{
    let chosen = choose|levels: nat| ends_within(entries, expanded, loaded, levels);
    if chosen <= levels {
        more_levels(entries, expanded, loaded, chosen, levels);
    } else {
        more_levels(entries, expanded, loaded, levels, chosen);
    }
}

fn append_within(
    entries: &Vec<ServerFileBrowserEntry>,
    expanded_directories: &DirectorySet,
    loaded_directories: &DirectoryListings,
    out: &mut Vec<ServerFileBrowserEntry>,
    Ghost(levels): Ghost<nat>,
)
    requires
        ends_within(entries@, expanded_directories@, loaded_directories@, levels),
    ensures
        final(out)@ == old(out)@ + rows_within(
            entries@,
            expanded_directories@,
            loaded_directories@,
            levels,
        ),
    decreases levels,
{
    let ghost expanded = expanded_directories@;
    let ghost loaded = loaded_directories@;
    let ghost start = out@;
    let mut i: usize = 0;
    assert(out@ == start + rows_within(entries@.take(0), expanded, loaded, levels));
    while i < entries.len()
        invariant
            i <= entries@.len(),
            expanded == expanded_directories@,
            loaded == loaded_directories@,
            ends_within(entries@, expanded, loaded, levels),
            out@ == start + rows_within(entries@.take(i as int), expanded, loaded, levels),
        decreases entries@.len() - i,
    {
        let ghost upto = entries@.take(i + 1);
        assert(upto.drop_last() == entries@.take(i as int));
        assert(upto.last() == entries@[i as int]);
        let entry: ServerFileBrowserEntry = entries[i].clone();
        let path: String = entry.path.clone();
        out.push(entry);
        if expanded_directories.contains(path.as_str()) {
            if let Some(children) = loaded_directories.get(path.as_str()) {
                assert(is_open(entries@[i as int], expanded, loaded));
                append_within(
                    children,
                    expanded_directories,
                    loaded_directories,
                    out,
                    Ghost((levels - 1) as nat),
                );
            }
        }
        assert(out@ =~= start + rows_within(upto, expanded, loaded, levels));
        i = i + 1;
    }
    assert(entries@.take(entries@.len() as int) == entries@);
}

/// Appends `entries` to `out`, each followed by the rows below it.
pub fn append_entries_from(
    entries: Vec<ServerFileBrowserEntry>,
    expanded_directories: &DirectorySet,
    loaded_directories: &DirectoryListings,
    out: &mut Vec<ServerFileBrowserEntry>,
)
    requires
        ends(entries@, expanded_directories@, loaded_directories@),
    ensures
        final(out)@ == old(out)@ + rows(entries@, expanded_directories@, loaded_directories@),
{
    let ghost levels = choose|levels: nat|
        ends_within(entries@, expanded_directories@, loaded_directories@, levels);
    append_within(&entries, expanded_directories, loaded_directories, out, Ghost(levels));
}

/// The entries of `entries` that are not indented.
fn roots_of(entries: &Vec<ServerFileBrowserEntry>) -> (found: Vec<ServerFileBrowserEntry>)
    ensures
        found@ == roots(entries@),
{
    let mut found: Vec<ServerFileBrowserEntry> = Vec::new();
    let mut i: usize = 0;
    while i < entries.len()
        invariant
            i <= entries@.len(),
            found@ == roots(entries@.take(i as int)),
        decreases entries@.len() - i,
    {
        reveal(Seq::filter);
        assert(entries@.take(i + 1).drop_last() == entries@.take(i as int));
        assert(entries@.take(i + 1).last() == entries@[i as int]);
        if entries[i].depth == 0 {
            found.push(entries[i].clone());
        }
        i = i + 1;
    }
    assert(entries@.take(entries@.len() as int) == entries@);
    found
}

/// The rows for the entries that are not indented: indented entries are left out, and found
/// again below the directory that holds them if it is expanded.
pub fn rebuild_entries_from(
    entries: Vec<ServerFileBrowserEntry>,
    expanded_directories: &DirectorySet,
    loaded_directories: &DirectoryListings,
) -> (rebuilt: Vec<ServerFileBrowserEntry>)
    requires
        ends(roots(entries@), expanded_directories@, loaded_directories@),
    ensures
        rebuilt@ == rows(roots(entries@), expanded_directories@, loaded_directories@),
{
    let found: Vec<ServerFileBrowserEntry> = roots_of(&entries);
    let mut rebuilt: Vec<ServerFileBrowserEntry> = Vec::new();
    append_entries_from(found, expanded_directories, loaded_directories, &mut rebuilt);
    rebuilt
}

/// Whether every entry that was listed for a directory has a longer path than the directory.
pub open spec fn extends_directory(
    directory: Seq<char>,
    entries: Seq<ServerFileBrowserEntry>,
) -> bool {
    forall|i: int|
        0 <= i < entries.len() ==> (#[trigger] entries[i]).path@.len() > directory.len()
}

/// Whether this holds of every directory that was listed.
pub open spec fn extends_directories(
    loaded: Map<Seq<char>, Seq<ServerFileBrowserEntry>>,
) -> bool {
    forall|directory: Seq<char>| #[trigger]
        loaded.contains_key(directory) ==> extends_directory(directory, loaded[directory])
}

/// Whether no directory that was listed has a path longer than `bound`.
spec fn paths_bounded(
    loaded: Map<Seq<char>, Seq<ServerFileBrowserEntry>>,
    bound: nat,
) -> bool {
    forall|directory: Seq<char>| #[trigger]
        loaded.contains_key(directory) ==> directory.len() <= bound
}

proof fn chains_end_within(
    entries: Seq<ServerFileBrowserEntry>,
    expanded: Set<Seq<char>>,
    loaded: Map<Seq<char>, Seq<ServerFileBrowserEntry>>,
    bound: nat,
    levels: nat,
)
    requires
        extends_directories(loaded),
        paths_bounded(loaded, bound),
        forall|i: int|
            0 <= i < entries.len() ==> (#[trigger] entries[i]).path@.len() + levels > bound,
    ensures
        ends_within(entries, expanded, loaded, levels),
    decreases levels,
{
    assert forall|i: int|
        0 <= i < entries.len() && is_open(#[trigger] entries[i], expanded, loaded) implies levels
        > 0 && ends_within(loaded[entries[i].path@], expanded, loaded, (levels - 1) as nat) by {
        let directory = entries[i].path@;
        assert(loaded.contains_key(directory));
        chains_end_within(loaded[directory], expanded, loaded, bound, (levels - 1) as nat);
    }
}

/// Finitely many paths have a longest one.
proof fn paths_have_a_bound(paths: Set<Seq<char>>) -> (bound: nat)
    requires
        paths.finite(),
    ensures
        forall|path: Seq<char>| #[trigger] paths.contains(path) ==> path.len() <= bound,
    decreases paths.len(),
{
    if paths.len() == 0 {
        0
    } else {
        let path = paths.choose();
        let bound = paths_have_a_bound(paths.remove(path));
        assert forall|other: Seq<char>| #[trigger] paths.contains(other) implies other.len()
            <= bound + path.len() by {
            if other != path {
                assert(paths.remove(path).contains(other));
            }
        }
        bound + path.len()
    }
}

/// Where listed entries have longer paths than the directory they were listed for, the rows
/// always come to an end, whatever is expanded.
pub proof fn growing_paths_end(
    entries: Seq<ServerFileBrowserEntry>,
    expanded: Set<Seq<char>>,
    loaded: Map<Seq<char>, Seq<ServerFileBrowserEntry>>,
)
    requires
        extends_directories(loaded),
        loaded.dom().finite(),
    ensures
        ends(entries, expanded, loaded),
{
    let bound = paths_have_a_bound(loaded.dom());
    assert(paths_bounded(loaded, bound));
    chains_end_within(entries, expanded, loaded, bound, bound + 1);
}

/// Whether every entry that was listed for an expanded directory is indented.
pub open spec fn listings_indented(
    loaded: Map<Seq<char>, Seq<ServerFileBrowserEntry>>,
) -> bool {
    forall|directory: Seq<char>, i: int|
        loaded.contains_key(directory) && 0 <= i < loaded[directory].len() ==> (
        #[trigger] loaded[directory][i]).depth > 0
}

proof fn roots_of_rows_within(
    entries: Seq<ServerFileBrowserEntry>,
    expanded: Set<Seq<char>>,
    loaded: Map<Seq<char>, Seq<ServerFileBrowserEntry>>,
    levels: nat,
)
    requires
        listings_indented(loaded),
    ensures
        roots(rows_within(entries, expanded, loaded, levels)) == roots(entries),
    decreases levels, entries.len(),
{
    reveal(Seq::filter);
    let is_root = |e: ServerFileBrowserEntry| e.depth == 0;
    if entries.len() > 0 {
        let entry = entries.last();
        let front = rows_within(entries.drop_last(), expanded, loaded, levels);
        roots_of_rows_within(entries.drop_last(), expanded, loaded, levels);
        assert(front.push(entry).drop_last() == front);
        assert(roots(front.push(entry)) == roots(entries));
        if is_open(entry, expanded, loaded) && levels > 0 {
            let children = loaded[entry.path@];
            let below = rows_within(children, expanded, loaded, (levels - 1) as nat);
            roots_of_rows_within(children, expanded, loaded, (levels - 1) as nat);
            indented_have_no_roots(children);
            Seq::filter_distributes_over_add(front.push(entry), below, is_root);
            assert(roots(front.push(entry)) + Seq::empty() == roots(front.push(entry)));
        }
    }
}

proof fn indented_have_no_roots(entries: Seq<ServerFileBrowserEntry>)
    requires
        forall|i: int| 0 <= i < entries.len() ==> (#[trigger] entries[i]).depth > 0,
    ensures
        roots(entries) == Seq::<ServerFileBrowserEntry>::empty(),
    decreases entries.len(),
{
    reveal(Seq::filter);
    if entries.len() > 0 {
        assert(entries.drop_last().len() < entries.len());
        assert forall|i: int| 0 <= i < entries.drop_last().len() implies (
        #[trigger] entries.drop_last()[i]).depth > 0 by {
            assert(entries.drop_last()[i] == entries[i]);
        }
        indented_have_no_roots(entries.drop_last());
        assert(entries.last() == entries[entries.len() - 1]);
    }
}

/// Filtering the roots twice is filtering them once.
pub proof fn roots_of_roots(entries: Seq<ServerFileBrowserEntry>)
    ensures
        roots(roots(entries)) == roots(entries),
    decreases entries.len(),
{
    reveal(Seq::filter);
    if entries.len() > 0 {
        roots_of_roots(entries.drop_last());
        if entries.last().depth == 0 {
            let front = roots(entries.drop_last());
            assert(front.push(entries.last()).drop_last() == front);
        }
    }
}

/// Entries that were listed for an expanded directory are never taken for entries of the current
/// directory: the roots of the rows are the roots that the rows were built from.
pub proof fn rows_keep_roots(
    entries: Seq<ServerFileBrowserEntry>,
    expanded: Set<Seq<char>>,
    loaded: Map<Seq<char>, Seq<ServerFileBrowserEntry>>,
)
    requires
        listings_indented(loaded),
    ensures
        roots(rows(roots(entries), expanded, loaded)) == roots(entries),
{
    let chosen = choose|levels: nat| ends_within(roots(entries), expanded, loaded, levels);
    roots_of_rows_within(roots(entries), expanded, loaded, chosen);
    roots_of_roots(entries);
}

/// Building the rows again from rows that were built changes nothing.
pub proof fn rebuilding_is_idempotent(
    entries: Seq<ServerFileBrowserEntry>,
    expanded: Set<Seq<char>>,
    loaded: Map<Seq<char>, Seq<ServerFileBrowserEntry>>,
)
    requires
        listings_indented(loaded),
    ensures
        ({
            let built = rows(roots(entries), expanded, loaded);
            rows(roots(built), expanded, loaded) == built
        }),
{
    rows_keep_roots(entries, expanded, loaded);
}

proof fn closed_rows_within(
    entries: Seq<ServerFileBrowserEntry>,
    expanded: Set<Seq<char>>,
    loaded: Map<Seq<char>, Seq<ServerFileBrowserEntry>>,
    levels: nat,
)
    requires
        forall|i: int|
            0 <= i < entries.len() ==> !is_open(#[trigger] entries[i], expanded, loaded),
    ensures
        rows_within(entries, expanded, loaded, levels) == entries,
    decreases entries.len(),
{
    if entries.len() > 0 {
        assert forall|i: int| 0 <= i < entries.drop_last().len() implies !is_open(
            #[trigger] entries.drop_last()[i],
            expanded,
            loaded,
        ) by {
            assert(entries.drop_last()[i] == entries[i]);
        }
        closed_rows_within(entries.drop_last(), expanded, loaded, levels);
        assert(entries.last() == entries[entries.len() - 1]);
        assert(entries.drop_last().push(entries.last()) == entries);
    }
}

/// Where nothing is open, the rows are the entries themselves.
pub proof fn closed_rows(
    entries: Seq<ServerFileBrowserEntry>,
    expanded: Set<Seq<char>>,
    loaded: Map<Seq<char>, Seq<ServerFileBrowserEntry>>,
)
    requires
        forall|i: int|
            0 <= i < entries.len() ==> !is_open(#[trigger] entries[i], expanded, loaded),
    ensures
        ends(entries, expanded, loaded),
        rows(entries, expanded, loaded) == entries,
{
    assert(ends_within(entries, expanded, loaded, 0));
    rows_are_rows_within(entries, expanded, loaded, 0);
    closed_rows_within(entries, expanded, loaded, 0);
}

proof fn same_open_same_rows_within(
    entries: Seq<ServerFileBrowserEntry>,
    expanded: Set<Seq<char>>,
    other: Set<Seq<char>>,
    loaded: Map<Seq<char>, Seq<ServerFileBrowserEntry>>,
    levels: nat,
)
    requires
        forall|path: Seq<char>| #[trigger]
            loaded.contains_key(path) ==> expanded.contains(path) == other.contains(path),
    ensures
        ends_within(entries, expanded, loaded, levels) == ends_within(
            entries,
            other,
            loaded,
            levels,
        ),
        rows_within(entries, expanded, loaded, levels) == rows_within(
            entries,
            other,
            loaded,
            levels,
        ),
    decreases levels, entries.len(),
{
    assert forall|i: int| 0 <= i < entries.len() implies is_open(
        #[trigger] entries[i],
        expanded,
        loaded,
    ) == is_open(entries[i], other, loaded) by {
        if loaded.contains_key(entries[i].path@) {
        }
    }
    if levels > 0 {
        assert forall|i: int|
            0 <= i < entries.len() && is_open(#[trigger] entries[i], expanded, loaded) implies
            ends_within(loaded[entries[i].path@], expanded, loaded, (levels - 1) as nat)
            == ends_within(loaded[entries[i].path@], other, loaded, (levels - 1) as nat) by {
            same_open_same_rows_within(
                loaded[entries[i].path@],
                expanded,
                other,
                loaded,
                (levels - 1) as nat,
            );
        }
    }
    if entries.len() > 0 {
        let entry = entries.last();
        assert(entry == entries[entries.len() - 1]);
        same_open_same_rows_within(entries.drop_last(), expanded, other, loaded, levels);
        if is_open(entry, expanded, loaded) && levels > 0 {
            same_open_same_rows_within(
                loaded[entry.path@],
                expanded,
                other,
                loaded,
                (levels - 1) as nat,
            );
        }
    }
}

/// Expanding a directory whose entries are not known changes no row.
pub proof fn unlisted_directories_do_not_matter(
    entries: Seq<ServerFileBrowserEntry>,
    expanded: Set<Seq<char>>,
    other: Set<Seq<char>>,
    loaded: Map<Seq<char>, Seq<ServerFileBrowserEntry>>,
)
    requires
        forall|path: Seq<char>| #[trigger]
            loaded.contains_key(path) ==> expanded.contains(path) == other.contains(path),
    ensures
        ends(entries, expanded, loaded) == ends(entries, other, loaded),
        ends(entries, expanded, loaded) ==> rows(entries, expanded, loaded) == rows(
            entries,
            other,
            loaded,
        ),
{
    assert forall|levels: nat| #[trigger]
        ends_within(entries, expanded, loaded, levels) == ends_within(
            entries,
            other,
            loaded,
            levels,
        ) by {
        same_open_same_rows_within(entries, expanded, other, loaded, levels);
    }
    assert forall|levels: nat| #[trigger]
        ends_within(entries, other, loaded, levels) implies ends_within(
        entries,
        expanded,
        loaded,
        levels,
    ) by {
        same_open_same_rows_within(entries, expanded, other, loaded, levels);
    }
    if ends(entries, expanded, loaded) {
        let levels = choose|levels: nat| ends_within(entries, expanded, loaded, levels);
        rows_are_rows_within(entries, expanded, loaded, levels);
        rows_are_rows_within(entries, other, loaded, levels);
        same_open_same_rows_within(entries, expanded, other, loaded, levels);
    }
}

proof fn fewer_open_end_within(
    entries: Seq<ServerFileBrowserEntry>,
    expanded: Set<Seq<char>>,
    fewer: Set<Seq<char>>,
    loaded: Map<Seq<char>, Seq<ServerFileBrowserEntry>>,
    levels: nat,
)
    requires
        fewer.subset_of(expanded),
        ends_within(entries, expanded, loaded, levels),
    ensures
        ends_within(entries, fewer, loaded, levels),
    decreases levels,
{
    assert forall|i: int|
        0 <= i < entries.len() && is_open(#[trigger] entries[i], fewer, loaded) implies levels > 0
        && ends_within(loaded[entries[i].path@], fewer, loaded, (levels - 1) as nat) by {
        assert(is_open(entries[i], expanded, loaded));
        fewer_open_end_within(
            loaded[entries[i].path@],
            expanded,
            fewer,
            loaded,
            (levels - 1) as nat,
        );
    }
}

/// Rows that come to an end still do so when directories are collapsed.
pub proof fn collapsing_keeps_ends(
    entries: Seq<ServerFileBrowserEntry>,
    expanded: Set<Seq<char>>,
    fewer: Set<Seq<char>>,
    loaded: Map<Seq<char>, Seq<ServerFileBrowserEntry>>,
)
    requires
        fewer.subset_of(expanded),
        ends(entries, expanded, loaded),
    ensures
        ends(entries, fewer, loaded),
{
    let levels = choose|levels: nat| ends_within(entries, expanded, loaded, levels);
    fewer_open_end_within(entries, expanded, fewer, loaded, levels);
}

/// Whether row `i` of `fewer` is row `places[i]` of `more`, and the places ascend.
pub open spec fn stands_at(
    fewer: Seq<ServerFileBrowserEntry>,
    more: Seq<ServerFileBrowserEntry>,
    places: Seq<int>,
) -> bool {
    &&& places.len() == fewer.len()
    &&& forall|i: int|
        0 <= i < places.len() ==> 0 <= #[trigger] places[i] < more.len() && more[places[i]]
            == fewer[i]
    &&& forall|i: int, j: int|
        0 <= i < j < places.len() ==> #[trigger] places[i] < #[trigger] places[j]
}

/// Whether all rows of `fewer` are rows of `more`, in the same order.
pub open spec fn is_subsequence(
    fewer: Seq<ServerFileBrowserEntry>,
    more: Seq<ServerFileBrowserEntry>,
) -> bool {
    exists|places: Seq<int>| stands_at(fewer, more, places)
}

proof fn expanding_keeps_order_within(
    entries: Seq<ServerFileBrowserEntry>,
    expanded: Set<Seq<char>>,
    more: Set<Seq<char>>,
    loaded: Map<Seq<char>, Seq<ServerFileBrowserEntry>>,
    levels: nat,
) -> (places: Seq<int>)
    requires
        expanded.subset_of(more),
    ensures
        stands_at(
            rows_within(entries, expanded, loaded, levels),
            rows_within(entries, more, loaded, levels),
            places,
        ),
    decreases levels, entries.len(),
{
    if entries.len() == 0 {
        Seq::empty()
    } else {
        let entry = entries.last();
        let front = rows_within(entries.drop_last(), expanded, loaded, levels);
        let front_more = rows_within(entries.drop_last(), more, loaded, levels);
        let places = expanding_keeps_order_within(
            entries.drop_last(),
            expanded,
            more,
            loaded,
            levels,
        );
        let upto = places.push(front_more.len() as int);
        if is_open(entry, expanded, loaded) && levels > 0 {
            let fewer = (levels - 1) as nat;
            let below = expanding_keeps_order_within(
                loaded[entry.path@],
                expanded,
                more,
                loaded,
                fewer,
            );
            let behind = front_more.len() as int + 1;
            upto + below.map_values(|place: int| behind + place)
        } else {
            upto
        }
    }
}

/// Expanding more directories keeps the rows and their order: new rows only come between them.
pub proof fn expanding_keeps_order(
    entries: Seq<ServerFileBrowserEntry>,
    expanded: Set<Seq<char>>,
    more: Set<Seq<char>>,
    loaded: Map<Seq<char>, Seq<ServerFileBrowserEntry>>,
)
    requires
        expanded.subset_of(more),
        ends(entries, more, loaded),
    ensures
        is_subsequence(rows(entries, expanded, loaded), rows(entries, more, loaded)),
{
    let levels = choose|levels: nat| ends_within(entries, more, loaded, levels);
    fewer_open_end_within(entries, more, expanded, loaded, levels);
    rows_are_rows_within(entries, expanded, loaded, levels);
    let places = expanding_keeps_order_within(entries, expanded, more, loaded, levels);
    assert(stands_at(rows(entries, expanded, loaded), rows(entries, more, loaded), places));
}

proof fn place_is_not_before(
    fewer: Seq<ServerFileBrowserEntry>,
    more: Seq<ServerFileBrowserEntry>,
    places: Seq<int>,
    i: int,
)
    requires
        stands_at(fewer, more, places),
        0 <= i < places.len(),
    ensures
        places[i] >= i,
    decreases i,
{
    if i > 0 {
        place_is_not_before(fewer, more, places, i - 1);
        assert(places[i - 1] < places[i]);
    }
}

/// A subsequence is not longer, and all of it is found again.
pub proof fn subsequence_is_contained(
    fewer: Seq<ServerFileBrowserEntry>,
    more: Seq<ServerFileBrowserEntry>,
)
    requires
        is_subsequence(fewer, more),
    ensures
        fewer.len() <= more.len(),
        forall|i: int| 0 <= i < fewer.len() ==> more.contains(#[trigger] fewer[i]),
{
    let places = choose|places: Seq<int>| stands_at(fewer, more, places);
    assert forall|i: int| 0 <= i < fewer.len() implies more.contains(#[trigger] fewer[i]) by {
        assert(more[places[i]] == fewer[i]);
    }
    if fewer.len() > 0 {
        place_is_not_before(fewer, more, places, fewer.len() - 1);
    }
}

/// Directories below `entries`, one for each level: below the last there are no open ones, below
/// the one before it there is one level of them, and so on.
proof fn one_directory_per_level(
    entries: Seq<ServerFileBrowserEntry>,
    expanded: Set<Seq<char>>,
    loaded: Map<Seq<char>, Seq<ServerFileBrowserEntry>>,
    levels: nat,
) -> (directories: Set<Seq<char>>)
    requires
        loaded.dom().finite(),
        ends_within(entries, expanded, loaded, levels),
        levels > 0 ==> !ends_within(entries, expanded, loaded, (levels - 1) as nat),
    ensures
        directories.finite(),
        directories.len() == levels,
        directories.subset_of(loaded.dom()),
        forall|directory: Seq<char>| #[trigger]
            directories.contains(directory) ==> levels > 0 && ends_within(
                loaded[directory],
                expanded,
                loaded,
                (levels - 1) as nat,
            ),
    decreases levels,
{
    if levels == 0 {
        Set::empty()
    } else {
        let fewer = (levels - 1) as nat;
        let i = choose|i: int|
            0 <= i < entries.len() && is_open(#[trigger] entries[i], expanded, loaded) && !(fewer
                > 0 && ends_within(loaded[entries[i].path@], expanded, loaded, (fewer - 1) as nat));
        assert(is_open(entries[i], expanded, loaded));
        let directory = entries[i].path@;
        let below = one_directory_per_level(loaded[directory], expanded, loaded, fewer);
        let directories = below.insert(directory);
        assert forall|other: Seq<char>| #[trigger] directories.contains(other) implies ends_within(
            loaded[other],
            expanded,
            loaded,
            fewer,
        ) by {
            if other != directory {
                assert(below.contains(other));
                more_levels(loaded[other], expanded, loaded, (fewer - 1) as nat, fewer);
            }
        }
        directories
    }
}

/// Rows that come to an end do so within as many levels as there are listed directories.
proof fn levels_are_bounded(
    entries: Seq<ServerFileBrowserEntry>,
    expanded: Set<Seq<char>>,
    loaded: Map<Seq<char>, Seq<ServerFileBrowserEntry>>,
    levels: nat,
)
    requires
        loaded.dom().finite(),
        ends_within(entries, expanded, loaded, levels),
    ensures
        ends_within(entries, expanded, loaded, loaded.len()),
    decreases levels,
{
    if levels <= loaded.len() {
        more_levels(entries, expanded, loaded, levels, loaded.len());
    } else if ends_within(entries, expanded, loaded, (levels - 1) as nat) {
        levels_are_bounded(entries, expanded, loaded, (levels - 1) as nat);
    } else {
        let directories = one_directory_per_level(entries, expanded, loaded, levels);
        lemma_len_subset(directories, loaded.dom());
    }
}

fn end_within(
    entries: &Vec<ServerFileBrowserEntry>,
    expanded_directories: &DirectorySet,
    loaded_directories: &DirectoryListings,
    levels: usize,
) -> (end: bool)
    ensures
        end == ends_within(
            entries@,
            expanded_directories@,
            loaded_directories@,
            levels as nat,
        ),
    decreases levels,
{
    let ghost expanded = expanded_directories@;
    let ghost loaded = loaded_directories@;
    let mut i: usize = 0;
    while i < entries.len()
        invariant
            i <= entries@.len(),
            expanded == expanded_directories@,
            loaded == loaded_directories@,
            forall|j: int|
                0 <= j < i && is_open(#[trigger] entries@[j], expanded, loaded) ==> levels > 0
                    && ends_within(
                    loaded[entries@[j].path@],
                    expanded,
                    loaded,
                    (levels - 1) as nat,
                ),
        decreases entries@.len() - i,
    {
        if expanded_directories.contains(entries[i].path.as_str()) {
            if let Some(children) = loaded_directories.get(entries[i].path.as_str()) {
                assert(is_open(entries@[i as int], expanded, loaded));
                if levels == 0 || !end_within(
                    children,
                    expanded_directories,
                    loaded_directories,
                    levels - 1,
                ) {
                    return false;
                }
            }
        }
        i = i + 1;
    }
    true
}

/// Whether the rows come to an end.
pub fn rows_end(
    entries: &Vec<ServerFileBrowserEntry>,
    expanded_directories: &DirectorySet,
    loaded_directories: &DirectoryListings,
) -> (end: bool)
    requires
        loaded_directories@.dom().finite(),
    ensures
        end == ends(roots(entries@), expanded_directories@, loaded_directories@),
{
    let found: Vec<ServerFileBrowserEntry> = roots_of(entries);
    let levels: usize = loaded_directories.len();
    proof {
        if ends(found@, expanded_directories@, loaded_directories@) {
            let enough = choose|enough: nat|
                ends_within(found@, expanded_directories@, loaded_directories@, enough);
            levels_are_bounded(found@, expanded_directories@, loaded_directories@, enough);
        }
    }
    end_within(&found, expanded_directories, loaded_directories, levels)
}

/// Of no entries there are no rows, and no chain.
pub proof fn nothing_has_no_rows(
    expanded: Set<Seq<char>>,
    loaded: Map<Seq<char>, Seq<ServerFileBrowserEntry>>,
)
    ensures
        ends(Seq::empty(), expanded, loaded),
        rows(Seq::empty(), expanded, loaded) == Seq::<ServerFileBrowserEntry>::empty(),
{
    assert(ends_within(Seq::empty(), expanded, loaded, 0));
    rows_are_rows_within(Seq::empty(), expanded, loaded, 0);
}

/// The rows come to an end just where those below each expanded and listed entry do, whatever its
/// depth.
pub proof fn rows_end_where_those_below_end(
    entries: Seq<ServerFileBrowserEntry>,
    expanded: Set<Seq<char>>,
    loaded: Map<Seq<char>, Seq<ServerFileBrowserEntry>>,
)
    ensures
        ends(entries, expanded, loaded) <==> forall|i: int|
            0 <= i < entries.len() && expanded.contains((#[trigger] entries[i]).path@)
                && loaded.contains_key(entries[i].path@) ==> ends(
                loaded[entries[i].path@],
                expanded,
                loaded,
            ),
    decreases entries.len(),
{
    if ends(entries, expanded, loaded) {
        let levels = choose|levels: nat| ends_within(entries, expanded, loaded, levels);
        assert forall|i: int|
            0 <= i < entries.len() && expanded.contains((#[trigger] entries[i]).path@)
                && loaded.contains_key(entries[i].path@) implies ends(
            loaded[entries[i].path@],
            expanded,
            loaded,
        ) by {
            assert(is_open(entries[i], expanded, loaded));
            assert(ends_within(
                loaded[entries[i].path@],
                expanded,
                loaded,
                (levels - 1) as nat,
            ));
        }
    }
    if forall|i: int|
        0 <= i < entries.len() && expanded.contains((#[trigger] entries[i]).path@)
            && loaded.contains_key(entries[i].path@) ==> ends(
            loaded[entries[i].path@],
            expanded,
            loaded,
        ) {
        let levels = enough_for_all(entries, expanded, loaded);
        assert(ends_within(entries, expanded, loaded, levels));
    }
}

/// A number of levels that suffices for all of `entries`.
proof fn enough_for_all(
    entries: Seq<ServerFileBrowserEntry>,
    expanded: Set<Seq<char>>,
    loaded: Map<Seq<char>, Seq<ServerFileBrowserEntry>>,
) -> (levels: nat)
    requires
        forall|i: int|
            0 <= i < entries.len() && is_open(#[trigger] entries[i], expanded, loaded) ==> ends(
                loaded[entries[i].path@],
                expanded,
                loaded,
            ),
    ensures
        ends_within(entries, expanded, loaded, levels),
    decreases entries.len(),
{
    if entries.len() == 0 {
        0
    } else {
        let front = entries.drop_last();
        let entry = entries.last();
        assert(entry == entries[entries.len() - 1]);
        assert forall|i: int|
            0 <= i < front.len() && is_open(#[trigger] front[i], expanded, loaded) implies ends(
            loaded[front[i].path@],
            expanded,
            loaded,
        ) by {
            assert(front[i] == entries[i]);
        }
        let before = enough_for_all(front, expanded, loaded);
        let own = if is_open(entry, expanded, loaded) {
            1 + choose|own: nat| ends_within(loaded[entry.path@], expanded, loaded, own)
        } else {
            0
        };
        let levels = before + own;
        assert forall|i: int|
            0 <= i < entries.len() && is_open(#[trigger] entries[i], expanded, loaded) implies
            levels > 0 && ends_within(
            loaded[entries[i].path@],
            expanded,
            loaded,
            (levels - 1) as nat,
        ) by {
            if i < front.len() {
                assert(front[i] == entries[i]);
                more_levels(
                    loaded[entries[i].path@],
                    expanded,
                    loaded,
                    (before - 1) as nat,
                    (levels - 1) as nat,
                );
            } else {
                more_levels(
                    loaded[entries[i].path@],
                    expanded,
                    loaded,
                    (own - 1) as nat,
                    (levels - 1) as nat,
                );
            }
        }
        levels
    }
}

/// One entry more adds its own row and, if the entry is expanded and listed, the rows of its
/// listing right behind it; nothing else.
pub proof fn one_more_entry(
    entries: Seq<ServerFileBrowserEntry>,
    entry: ServerFileBrowserEntry,
    expanded: Set<Seq<char>>,
    loaded: Map<Seq<char>, Seq<ServerFileBrowserEntry>>,
)
    requires
        ends(entries.push(entry), expanded, loaded),
    ensures
        rows(entries.push(entry), expanded, loaded) == rows(entries, expanded, loaded).push(entry)
            + if expanded.contains(entry.path@) && loaded.contains_key(entry.path@) {
            rows(loaded[entry.path@], expanded, loaded)
        } else {
            Seq::empty()
        },
{
    let all = entries.push(entry);
    let levels = choose|levels: nat| ends_within(all, expanded, loaded, levels);
    ends_within_prefix(all, expanded, loaded, levels);
    assert(all.drop_last() =~= entries);
    assert(all[all.len() - 1] == entry);
    rows_are_rows_within(all, expanded, loaded, levels);
    rows_are_rows_within(entries, expanded, loaded, levels);
    if is_open(entry, expanded, loaded) {
        rows_are_rows_within(loaded[entry.path@], expanded, loaded, (levels - 1) as nat);
    }
    assert(rows(all, expanded, loaded) =~= rows(entries, expanded, loaded).push(entry)
        + if expanded.contains(entry.path@) && loaded.contains_key(entry.path@) {
        rows(loaded[entry.path@], expanded, loaded)
    } else {
        Seq::empty()
    });
}

/// Whether the listing of row `i` stands behind it with everything below it, if the row is
/// expanded and listed.
spec fn is_followed(
    shown: Seq<ServerFileBrowserEntry>,
    expanded: Set<Seq<char>>,
    loaded: Map<Seq<char>, Seq<ServerFileBrowserEntry>>,
    i: int,
) -> bool {
    let path = shown[i].path@;
    expanded.contains(path) && loaded.contains_key(path) ==> {
        let below = rows(loaded[path], expanded, loaded);
        &&& i + 1 + below.len() <= shown.len()
        &&& shown.subrange(i + 1, i + 1 + below.len()) == below
    }
}

proof fn rows_are_followed_within(
    entries: Seq<ServerFileBrowserEntry>,
    expanded: Set<Seq<char>>,
    loaded: Map<Seq<char>, Seq<ServerFileBrowserEntry>>,
    levels: nat,
    i: int,
)
    requires
        ends_within(entries, expanded, loaded, levels),
        0 <= i < rows_within(entries, expanded, loaded, levels).len(),
    ensures
        is_followed(rows_within(entries, expanded, loaded, levels), expanded, loaded, i),
    decreases levels, entries.len(),
{
    let entry = entries.last();
    let front = rows_within(entries.drop_last(), expanded, loaded, levels);
    let all = rows_within(entries, expanded, loaded, levels);
    let path = all[i].path@;
    assert(entry == entries[entries.len() - 1]);
    ends_within_prefix(entries, expanded, loaded, levels);
    if expanded.contains(path) && loaded.contains_key(path) {
        let below = rows(loaded[path], expanded, loaded);
        if i < front.len() {
            rows_are_followed_within(entries.drop_last(), expanded, loaded, levels, i);
            assert(all[i] == front[i]);
            assert(all.subrange(i + 1, i + 1 + below.len()) =~= front.subrange(
                i + 1,
                i + 1 + below.len(),
            ));
        } else if i == front.len() {
            assert(is_open(entry, expanded, loaded));
            rows_are_rows_within(loaded[path], expanded, loaded, (levels - 1) as nat);
            assert(all.subrange(i + 1, i + 1 + below.len()) =~= below);
        } else {
            let fewer = (levels - 1) as nat;
            let own = rows_within(loaded[entry.path@], expanded, loaded, fewer);
            let k = i - front.len() - 1;
            rows_are_followed_within(loaded[entry.path@], expanded, loaded, fewer, k);
            assert(all[i] == own[k]);
            assert(all.subrange(i + 1, i + 1 + below.len()) =~= own.subrange(
                k + 1,
                k + 1 + below.len(),
            ));
        }
    }
}

proof fn rows_begin_with_first(
    entries: Seq<ServerFileBrowserEntry>,
    expanded: Set<Seq<char>>,
    loaded: Map<Seq<char>, Seq<ServerFileBrowserEntry>>,
)
    requires
        ends(entries, expanded, loaded),
    ensures
        entries.len() > 0 ==> rows(entries, expanded, loaded).len() > 0 && rows(
            entries,
            expanded,
            loaded,
        )[0] == entries[0],
        forall|k: int|
            0 <= k < entries.len() ==> rows(entries, expanded, loaded).contains(
                #[trigger] entries[k],
            ),
    decreases entries.len(),
{
    if entries.len() > 0 {
        let front = entries.drop_last();
        let entry = entries.last();
        let all = rows(entries, expanded, loaded);
        assert(front.push(entry) =~= entries);
        one_more_entry(front, entry, expanded, loaded);
        let levels = choose|levels: nat| ends_within(entries, expanded, loaded, levels);
        ends_within_prefix(entries, expanded, loaded, levels);
        rows_begin_with_first(front, expanded, loaded);
        let before = rows(front, expanded, loaded);
        if front.len() == 0 {
            assert(front =~= Seq::empty());
            nothing_has_no_rows(expanded, loaded);
        }
        assert forall|k: int| 0 <= k < entries.len() implies all.contains(#[trigger] entries[k]) by {
            if k < front.len() {
                assert(before.contains(front[k]));
                let j = before.index_of(front[k]);
                assert(all[j] == entries[k]);
            } else {
                assert(all[before.len() as int] == entry);
            }
        }
    }
}

/// A row that is expanded and listed, whatever its depth, is followed by its listing: the first
/// entry stands directly behind it, every entry is shown, and with everything below it the listing
/// makes up the rows up to the next that is not below it.
pub proof fn listing_follows_its_directory(
    entries: Seq<ServerFileBrowserEntry>,
    expanded: Set<Seq<char>>,
    loaded: Map<Seq<char>, Seq<ServerFileBrowserEntry>>,
    i: int,
)
    requires
        ends(entries, expanded, loaded),
        0 <= i < rows(entries, expanded, loaded).len(),
    ensures
        ({
            let shown = rows(entries, expanded, loaded);
            let path = shown[i].path@;
            expanded.contains(path) && loaded.contains_key(path) ==> {
                let below = rows(loaded[path], expanded, loaded);
                &&& loaded[path].len() > 0 ==> i + 1 < shown.len() && shown[i + 1]
                    == loaded[path][0]
                &&& forall|k: int|
                    0 <= k < loaded[path].len() ==> shown.contains(#[trigger] loaded[path][k])
                &&& i + 1 + below.len() <= shown.len()
                &&& shown.subrange(i + 1, i + 1 + below.len()) == below
            }
        }),
{
    let shown = rows(entries, expanded, loaded);
    let path = shown[i].path@;
    let levels = choose|levels: nat| ends_within(entries, expanded, loaded, levels);
    rows_are_rows_within(entries, expanded, loaded, levels);
    rows_are_followed_within(entries, expanded, loaded, levels, i);
    if expanded.contains(path) && loaded.contains_key(path) {
        let below = rows(loaded[path], expanded, loaded);
        below_a_row_ends_within(entries, expanded, loaded, levels, i);
        rows_begin_with_first(loaded[path], expanded, loaded);
        assert forall|k: int| 0 <= k < below.len() implies #[trigger] below[k] == shown[i + 1
            + k] by {
            assert(shown.subrange(i + 1, i + 1 + below.len())[k] == shown[i + 1 + k]);
        }
        assert forall|k: int| 0 <= k < loaded[path].len() implies shown.contains(
            #[trigger] loaded[path][k],
        ) by {
            assert(below.contains(loaded[path][k]));
            let j = below.index_of(loaded[path][k]);
            assert(shown[i + 1 + j] == loaded[path][k]);
        }
    }
}

proof fn below_a_row_ends_within(
    entries: Seq<ServerFileBrowserEntry>,
    expanded: Set<Seq<char>>,
    loaded: Map<Seq<char>, Seq<ServerFileBrowserEntry>>,
    levels: nat,
    i: int,
)
    requires
        ends_within(entries, expanded, loaded, levels),
        0 <= i < rows_within(entries, expanded, loaded, levels).len(),
        is_open(rows_within(entries, expanded, loaded, levels)[i], expanded, loaded),
    ensures
        ends(
            loaded[rows_within(entries, expanded, loaded, levels)[i].path@],
            expanded,
            loaded,
        ),
    decreases levels, entries.len(),
{
    let entry = entries.last();
    let front = rows_within(entries.drop_last(), expanded, loaded, levels);
    let all = rows_within(entries, expanded, loaded, levels);
    assert(entry == entries[entries.len() - 1]);
    ends_within_prefix(entries, expanded, loaded, levels);
    if i < front.len() {
        below_a_row_ends_within(entries.drop_last(), expanded, loaded, levels, i);
    } else if i == front.len() {
        assert(ends_within(loaded[entry.path@], expanded, loaded, (levels - 1) as nat));
    } else {
        below_a_row_ends_within(
            loaded[entry.path@],
            expanded,
            loaded,
            (levels - 1) as nat,
            i - front.len() - 1,
        );
    }
}

/// Every row is one of the entries, or stands in the listing of an expanded directory.
pub proof fn rows_come_from_listings(
    entries: Seq<ServerFileBrowserEntry>,
    expanded: Set<Seq<char>>,
    loaded: Map<Seq<char>, Seq<ServerFileBrowserEntry>>,
    i: int,
)
    requires
        ends(entries, expanded, loaded),
        0 <= i < rows(entries, expanded, loaded).len(),
    ensures
        ({
            let row = rows(entries, expanded, loaded)[i];
            entries.contains(row) || exists|directory: Seq<char>|
                expanded.contains(directory) && #[trigger] loaded.contains_key(directory)
                    && loaded[directory].contains(row)
        }),
{
    let levels = choose|levels: nat| ends_within(entries, expanded, loaded, levels);
    rows_are_rows_within(entries, expanded, loaded, levels);
    rows_within_come_from_listings(entries, expanded, loaded, levels, i);
}

proof fn rows_within_come_from_listings(
    entries: Seq<ServerFileBrowserEntry>,
    expanded: Set<Seq<char>>,
    loaded: Map<Seq<char>, Seq<ServerFileBrowserEntry>>,
    levels: nat,
    i: int,
)
    requires
        0 <= i < rows_within(entries, expanded, loaded, levels).len(),
    ensures
        ({
            let row = rows_within(entries, expanded, loaded, levels)[i];
            entries.contains(row) || exists|directory: Seq<char>|
                expanded.contains(directory) && #[trigger] loaded.contains_key(directory)
                    && loaded[directory].contains(row)
        }),
    decreases levels, entries.len(),
{
    let entry = entries.last();
    let front = rows_within(entries.drop_last(), expanded, loaded, levels);
    let all = rows_within(entries, expanded, loaded, levels);
    let row = all[i];
    if i < front.len() {
        rows_within_come_from_listings(entries.drop_last(), expanded, loaded, levels, i);
        if entries.drop_last().contains(row) {
            let k = entries.drop_last().index_of(row);
            assert(entries[k] == row);
        }
    } else if i == front.len() {
        assert(entries[entries.len() - 1] == row);
    } else {
        rows_within_come_from_listings(
            loaded[entry.path@],
            expanded,
            loaded,
            (levels - 1) as nat,
            i - front.len() - 1,
        );
        if loaded[entry.path@].contains(row) {
            assert(loaded.contains_key(entry.path@));
        }
    }
}

/// The roots are the entries that are not indented, in their order: an entry more is a root more
/// just if it is not indented.
pub proof fn one_more_root(
    entries: Seq<ServerFileBrowserEntry>,
    entry: ServerFileBrowserEntry,
)
    ensures
        roots(Seq::empty()) == Seq::<ServerFileBrowserEntry>::empty(),
        entry.depth == 0 ==> roots(entries.push(entry)) == roots(entries).push(entry),
        entry.depth != 0 ==> roots(entries.push(entry)) == roots(entries),
{
    reveal(Seq::filter);
    assert(entries.push(entry).drop_last() =~= entries);
}

/// Where every listed entry has a longer path than the directory it was listed for, the rows come
/// to an end, whatever is expanded.
pub proof fn longer_paths_end(
    entries: Seq<ServerFileBrowserEntry>,
    expanded: Set<Seq<char>>,
    loaded: Map<Seq<char>, Seq<ServerFileBrowserEntry>>,
)
    requires
        loaded.dom().finite(),
        forall|directory: Seq<char>, i: int|
            loaded.contains_key(directory) && 0 <= i < loaded[directory].len() ==> (
            #[trigger] loaded[directory][i]).path@.len() > directory.len(),
    ensures
        ends(entries, expanded, loaded),
{
    growing_paths_end(entries, expanded, loaded);
}

} // verus!
