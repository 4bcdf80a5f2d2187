//! Moving the selected row of a table: one row at a time (wrapping), by pages, to either end,
//! and keeping a selection inside a table that shrank.
use crate::modes::AppMode;
use vstd::prelude::*;

verus! {

/// Rows a page key moves over.
pub const PAGE_SIZE: usize = 20;

/// How many rows the arrow keys move over on a screen: the shown transactions, the twelve
/// months of a summary or budget, the visible category summary rows, and nothing elsewhere.
pub fn mode_list_len(mode: AppMode, shown_transactions: usize, category_rows: usize) -> (r: usize)
    ensures
        r == (match mode {
            AppMode::Normal | AppMode::Filtering => shown_transactions,
            AppMode::Summary | AppMode::Budget => 12,
            AppMode::CategorySummary => category_rows,
            _ => 0,
        }),
{
    match mode {
        AppMode::Normal | AppMode::Filtering => shown_transactions,
        AppMode::Summary | AppMode::Budget => 12,
        AppMode::CategorySummary => category_rows,
        _ => 0,
    }
}

/// The table selection after the down key: unchanged in an empty table; otherwise the row
/// after the current one (the first row counting as current when none is), wrapping from the
/// last row to the first.
pub fn next_item(selected: Option<usize>, len: usize) -> (r: Option<usize>)
    ensures
        r == (if len == 0 {
            selected
        } else {
            let c = match selected {
                Some(c) => c,
                None => 0,
            };
            Some(if c >= len - 1 { 0 } else { (c + 1) as usize })
        }),
{
    if len == 0 {
        return selected;
    }
    let c = match selected {
        Some(c) => c,
        None => 0,
    };
    Some(if c >= len - 1 { 0 } else { c + 1 })
}

/// The table selection after the up key: unchanged in an empty table; otherwise the row
/// before the current one, wrapping from the first row to the last.
pub fn previous_item(selected: Option<usize>, len: usize) -> (r: Option<usize>)
    ensures
        r == (if len == 0 {
            selected
        } else {
            let c = match selected {
                Some(c) => c,
                None => 0,
            };
            Some(if c == 0 { (len - 1) as usize } else { (c - 1) as usize })
        }),
{
    if len == 0 {
        return selected;
    }
    let c = match selected {
        Some(c) => c,
        None => 0,
    };
    Some(if c == 0 { len - 1 } else { c - 1 })
}

/// The first row, or no change in an empty table.
pub fn jump_to_first(selected: Option<usize>, len: usize) -> (r: Option<usize>)
    ensures
        r == (if len > 0 { Some(0usize) } else { selected }),
{
    if len > 0 {
        Some(0)
    } else {
        selected
    }
}

/// The last row, or no change in an empty table.
pub fn jump_to_last(selected: Option<usize>, len: usize) -> (r: Option<usize>)
    ensures
        r == (if len > 0 { Some((len - 1) as usize) } else { selected }),
{
    if len > 0 {
        Some(len - 1)
    } else {
        selected
    }
}

/// A page up: `page` rows up from the current row, stopping at the first; no change in an
/// empty table.
pub fn page_up(selected: Option<usize>, len: usize, page: usize) -> (r: Option<usize>)
    ensures
        r == (if len == 0 {
            selected
        } else {
            let c = match selected {
                Some(c) => c,
                None => 0,
            };
            Some(if c >= page { (c - page) as usize } else { 0usize })
        }),
{
    if len == 0 {
        return selected;
    }
    let c = match selected {
        Some(c) => c,
        None => 0,
    };
    Some(if c >= page { c - page } else { 0 })
}

/// A page down: `page` rows down from the current row, stopping at the last; no change in an
/// empty table.
pub fn page_down(selected: Option<usize>, len: usize, page: usize) -> (r: Option<usize>)
    requires
        match selected {
            Some(c) => c + page <= usize::MAX,
            None => true,
        },
    ensures
        r == (if len == 0 {
            selected
        } else {
            let c = match selected {
                Some(c) => c,
                None => 0,
            };
            Some(if c + page <= len - 1 { (c + page) as usize } else { (len - 1) as usize })
        }),
{
    if len == 0 {
        return selected;
    }
    let c = match selected {
        Some(c) => c,
        None => 0,
    };
    let target = c + page;
    Some(if target <= len - 1 { target } else { len - 1 })
}

/// The row to select in a table of `len` rows: none when it is empty, otherwise the current
/// selection (the first row when there is none) moved onto the last row if it is past it.
pub fn clamp_selection(selected: Option<usize>, len: usize) -> (r: Option<usize>)
    ensures
        r == (if len == 0 {
            None::<usize>
        } else {
            let s = match selected {
                Some(s) => s,
                None => 0,
            };
            Some(if s < len { s } else { (len - 1) as usize })
        }),
{
    if len == 0 {
        None
    } else {
        let s = match selected {
            Some(s) => s,
            None => 0,
        };
        Some(if s < len { s } else { len - 1 })
    }
}

/// The selection after moving down a list of `len` rows, wrapping from the last to the first.
pub fn next_selection(selected: Option<usize>, len: usize) -> (r: Option<usize>)
    ensures
        r == (if len == 0 {
            None::<usize>
        } else {
            match selected {
                Some(i) => if i + 1 < len {
                    Some((i + 1) as usize)
                } else {
                    Some(0usize)
                },
                None => Some(0usize),
            }
        }),
{
    if len == 0 {
        return None;
    }
    match selected {
        Some(i) => if i < len - 1 {
            Some(i + 1)
        } else {
            Some(0)
        },
        None => Some(0),
    }
}

/// The selection after moving up a list of `len` rows, wrapping from the first to the last.
pub fn previous_selection(selected: Option<usize>, len: usize) -> (r: Option<usize>)
    ensures
        r == (if len == 0 {
            None::<usize>
        } else {
            match selected {
                Some(i) => if i == 0 {
                    Some((len - 1) as usize)
                } else {
                    Some((i - 1) as usize)
                },
                None => Some((len - 1) as usize),
            }
        }),
{
    if len == 0 {
        return None;
    }
    match selected {
        Some(0) | None => Some(len - 1),
        Some(i) => Some(i - 1),
    }
}

} // verus!
