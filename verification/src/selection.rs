//! Which row of the browser is selected.

use crate::entry::ServerFileBrowserEntry;
use crate::text::{opt_str, same_text};
use vstd::prelude::*;

verus! {

/// The row that is selected when the selection moves up: the one before, or the first.
pub open spec fn row_before(selected: Option<usize>, len: usize) -> Option<usize> {
    if len == 0 {
        None
    } else {
        match selected {
            Some(row) if row > 0 => Some((row - 1) as usize),
            _ => Some(0),
        }
    }
}

/// The row that is selected when the selection moves down: the one behind, or the last. Without
/// a selection it moves down from the first row.
pub open spec fn row_after(selected: Option<usize>, len: usize) -> Option<usize> {
    if len == 0 {
        None
    } else {
        let row: int = match selected {
            Some(row) => row as int,
            None => 0,
        };
        if row + 1 < len {
            Some((row + 1) as usize)
        } else {
            Some((len - 1) as usize)
        }
    }
}

/// The first of `entries` with this path.
pub open spec fn row_of(entries: Seq<ServerFileBrowserEntry>, path: Seq<char>) -> Option<usize>
    decreases entries.len(),
{
    if entries.len() == 0 {
        None
    } else {
        match row_of(entries.drop_last(), path) {
            Some(row) => Some(row),
            None => if entries.last().path@ == path {
                Some((entries.len() - 1) as usize)
            } else {
                None
            },
        }
    }
}

/// The selected row once the rows have changed: the row with the path that was selected, or
/// else the row at the same place, or the last one where there are fewer.
pub open spec fn row_after_rebuild(
    entries: Seq<ServerFileBrowserEntry>,
    selected_path: Option<Seq<char>>,
    fallback: Option<usize>,
) -> Option<usize> {
    let found = match selected_path {
        Some(path) => row_of(entries, path),
        None => None,
    };
    if found is Some {
        found
    } else if entries.len() == 0 {
        None
    } else {
        let row: int = match fallback {
            Some(row) => row as int,
            None => 0,
        };
        if row < entries.len() {
            Some(row as usize)
        } else {
            Some((entries.len() - 1) as usize)
        }
    }
}

/// Moves the selection up.
pub fn previous_index(selected_index: Option<usize>, len: usize) -> (selected: Option<usize>)
    ensures
        selected == row_before(selected_index, len),
{
    if len == 0 {
        None
    } else {
        Some(selected_index.unwrap_or(0).saturating_sub(1))
    }
}

/// Moves the selection down.
pub fn next_index(selected_index: Option<usize>, len: usize) -> (selected: Option<usize>)
    requires
        len > 0 ==> selected_index != Some(usize::MAX),
    ensures
        selected == row_after(selected_index, len),
{
    if len == 0 {
        None
    } else {
        let next: usize = selected_index.unwrap_or(0) + 1;
        if next < len - 1 {
            Some(next)
        } else {
            Some(len - 1)
        }
    }
}

/// Finds the first row with the path `path`.
pub fn position(entries: &[ServerFileBrowserEntry], path: &str) -> (row: Option<usize>)
    ensures
        row == row_of(entries@, path@),
{
    let mut i: usize = 0;
    while i < entries.len()
        invariant
            i <= entries@.len(),
            row_of(entries@.take(i as int), path@) is None,
        decreases entries@.len() - i,
    {
        assert(entries@.take(i + 1).drop_last() == entries@.take(i as int));
        if same_text(entries[i].path.as_str(), path) {
            proof {
                found_row_stays(entries@, path@, i + 1);
            }
            return Some(i);
        }
        i = i + 1;
    }
    assert(entries@.take(entries@.len() as int) == entries@);
    None
}

proof fn found_row_stays(entries: Seq<ServerFileBrowserEntry>, path: Seq<char>, n: int)
    requires
        0 <= n <= entries.len(),
        row_of(entries.take(n), path) is Some,
    ensures
        row_of(entries, path) == row_of(entries.take(n), path),
    decreases entries.len() - n,
{
    if n < entries.len() {
        assert(entries.take(n + 1).drop_last() == entries.take(n));
        found_row_stays(entries, path, n + 1);
    } else {
        assert(entries.take(n) == entries);
    }
}

/// Selects a row of rows that have just changed.
pub fn selected_index_after_rebuild(
    entries: &[ServerFileBrowserEntry],
    selected_path: Option<&str>,
    fallback_index: Option<usize>,
) -> (selected: Option<usize>)
    ensures
        selected == row_after_rebuild(
            entries@,
            opt_str(selected_path),
            fallback_index,
        ),
{
    if let Some(path) = selected_path {
        if let Some(row) = position(entries, path) {
            return Some(row);
        }
    }
    if entries.len() == 0 {
        None
    } else {
        let row: usize = fallback_index.unwrap_or(0);
        if row < entries.len() - 1 {
            Some(row)
        } else {
            Some(entries.len() - 1)
        }
    }
}

/// A row that was found is a row, and it has the path that was looked for, which no earlier row
/// has. If none was found, no row has it.
pub proof fn row_of_is_first(entries: Seq<ServerFileBrowserEntry>, path: Seq<char>)
    requires
        entries.len() <= usize::MAX,
    ensures
        match row_of(entries, path) {
            Some(row) => {
                &&& row < entries.len()
                &&& entries[row as int].path@ == path
                &&& forall|i: int| 0 <= i < row ==> (#[trigger] entries[i]).path@ != path
            },
            None => forall|i: int|
                0 <= i < entries.len() ==> (#[trigger] entries[i]).path@ != path,
        },
    decreases entries.len(),
{
    if entries.len() > 0 {
        let front = entries.drop_last();
        row_of_is_first(front, path);
        assert forall|i: int| 0 <= i < front.len() implies #[trigger] entries[i] == front[i] by {
        }
    }
}

/// Whether `selected` is no row or one of `len` rows.
pub open spec fn in_bounds(selected: Option<usize>, len: nat) -> bool {
    selected matches Some(row) ==> row < len
}

/// The selection stays among the rows, however it is moved and however the rows change; and
/// while there are rows, it does not get lost.
pub proof fn selection_stays_in_bounds(
    selected: Option<usize>,
    len: usize,
    entries: Seq<ServerFileBrowserEntry>,
    selected_path: Option<Seq<char>>,
)
    requires
        in_bounds(selected, len as nat),
        entries.len() <= usize::MAX,
    ensures
        in_bounds(row_before(selected, len), len as nat),
        in_bounds(row_after(selected, len), len as nat),
        in_bounds(row_after_rebuild(entries, selected_path, selected), entries.len()),
        len > 0 ==> row_before(selected, len) is Some && row_after(selected, len) is Some,
        entries.len() > 0 <==> row_after_rebuild(entries, selected_path, selected) is Some,
{
    if let Some(path) = selected_path {
        row_of_is_first(entries, path);
    }
}

/// Moving up undoes moving down, except from the last row.
pub proof fn moving_up_undoes_moving_down(row: usize, len: usize)
    requires
        row + 1 < len,
    ensures
        row_before(row_after(Some(row), len), len) == Some(row),
{
}

/// A selected path that is still shown stays selected.
pub proof fn shown_path_stays_selected(
    entries: Seq<ServerFileBrowserEntry>,
    path: Seq<char>,
    fallback: Option<usize>,
)
    requires
        entries.len() <= usize::MAX,
        exists|i: int| 0 <= i < entries.len() && (#[trigger] entries[i]).path@ == path,
    ensures
        row_after_rebuild(entries, Some(path), fallback) matches Some(row) && row < entries.len()
            && entries[row as int].path@ == path,
{
    row_of_is_first(entries, path);
}

/// Moving up goes to the row before and stays at the first; moving down goes to the row behind and
/// stays at the last. Without a selection one moves from the first row.
pub proof fn moving_goes_one_row(row: usize, len: usize)
    requires
        row < len,
    ensures
        row > 0 ==> row_before(Some(row), len) == Some((row - 1) as usize),
        row_before(Some(0), len) == Some(0usize),
        row_before(None, len) == row_before(Some(0), len),
        row + 1 < len ==> row_after(Some(row), len) == Some((row + 1) as usize),
        row + 1 == len ==> row_after(Some(row), len) == Some(row),
        row_after(None, len) == row_after(Some(0), len),
        row_before(Some(row), 0) is None && row_before(None, 0) is None,
        row_after(Some(row), 0) is None && row_after(None, 0) is None,
{
}

/// A selected path that is no longer shown gives way to the row at the same place, or to the last
/// row if there are fewer; without a place it is the first row.
pub proof fn hidden_path_gives_way(
    entries: Seq<ServerFileBrowserEntry>,
    selected_path: Option<Seq<char>>,
    place: usize,
)
    requires
        0 < entries.len() <= usize::MAX,
        selected_path matches Some(path) ==> forall|i: int|
            0 <= i < entries.len() ==> (#[trigger] entries[i]).path@ != path,
    ensures
        place < entries.len() ==> row_after_rebuild(entries, selected_path, Some(place)) == Some(
            place,
        ),
        place >= entries.len() ==> row_after_rebuild(entries, selected_path, Some(place)) == Some(
            (entries.len() - 1) as usize,
        ),
        row_after_rebuild(entries, selected_path, None) == Some(0usize),
        row_after_rebuild(Seq::empty(), selected_path, Some(place)) is None,
        row_after_rebuild(Seq::empty(), selected_path, None) is None,
{
    if let Some(path) = selected_path {
        row_of_is_first(entries, path);
    }
}

/// Of several rows with the selected path the first is selected.
pub proof fn first_row_with_the_path_is_selected(
    entries: Seq<ServerFileBrowserEntry>,
    path: Seq<char>,
    fallback: Option<usize>,
    row: int,
)
    requires
        entries.len() <= usize::MAX,
        0 <= row < entries.len(),
        entries[row].path@ == path,
        forall|i: int| 0 <= i < row ==> (#[trigger] entries[i]).path@ != path,
    ensures
        row_after_rebuild(entries, Some(path), fallback) == Some(row as usize),
        row_of(entries, path) == Some(row as usize),
{
    row_of_is_first(entries, path);
}

/// A selection is in bounds just if it is none or one of the rows.
pub proof fn bounds_are_those_of_the_rows(row: usize, len: nat)
    ensures
        in_bounds(None, len),
        in_bounds(Some(row), len) <==> row < len,
{
}

} // verus!
