use vstd::prelude::*;

verus! {

/// The first visible row: the selection minus half the row count, clamped to
/// `[0, max(0, filtered_len - rows)]`.
pub open spec fn spec_view_start(filtered_len: int, rows: int, selection: int) -> int {
    let centered = if selection >= rows / 2 { selection - rows / 2 } else { 0 };
    let last = if filtered_len >= rows { filtered_len - rows } else { 0 };
    if centered <= last { centered } else { last }
}

/// One past the last visible row.
pub open spec fn spec_view_end(filtered_len: int, rows: int, selection: int) -> int {
    let start = spec_view_start(filtered_len, rows, selection);
    if start + rows <= filtered_len { start + rows } else { filtered_len }
}

/// Computes the half-open window `[start, end)` of the filtered list that is
/// shown, keeping `selection` as close to the middle as the list bounds allow.
pub fn recenter(filtered_len: usize, rows: usize, selection: usize) -> (r: (usize, usize))
    ensures
        r.0 == spec_view_start(filtered_len as int, rows as int, selection as int),
        r.1 == spec_view_end(filtered_len as int, rows as int, selection as int),
        r.0 <= r.1 <= filtered_len,
        filtered_len <= rows ==> r.0 == 0 && r.1 == filtered_len,
{
    let half: usize = rows / 2;
    let centered: usize = if selection >= half { selection - half } else { 0 };
    let last: usize = if filtered_len >= rows { filtered_len - rows } else { 0 };
    let start: usize = if centered <= last { centered } else { last };
    let end: usize = if filtered_len >= rows && start <= filtered_len - rows {
        start + rows
    } else {
        filtered_len
    };
    (start, end)
}

/// The shown window holds the selection, is at most `rows` long, and stays
/// inside the list, whenever the list is non-empty, the selection is one of
/// its rows and at least one row is shown.
pub proof fn lemma_viewport_contains_selection(filtered_len: int, rows: int, selection: int)
    requires
        filtered_len > 0,
        rows > 0,
        0 <= selection < filtered_len,
    ensures
        0 <= spec_view_start(filtered_len, rows, selection) <= selection,
        selection < spec_view_end(filtered_len, rows, selection) <= filtered_len,
        spec_view_end(filtered_len, rows, selection) - spec_view_start(filtered_len, rows, selection)
            <= rows,
{
}

} // verus!
