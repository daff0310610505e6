//! Where things go on the screen.

use vstd::prelude::*;

verus! {

/// The rows inside a bordered area of the given height.
pub open spec fn inner_rows(area_height: u16) -> nat {
    if area_height >= 2 {
        (area_height - 2) as nat
    } else {
        0
    }
}

/// The column of the input line that is shown first, so that a cursor at
/// `cursor` is inside a bordered area of the given width. The cursor counts
/// modulo 65536.
pub open spec fn input_scroll_for(cursor: nat, area_width: u16) -> nat {
    let inner: int = if area_width >= 2 {
        area_width - 2
    } else {
        0
    };
    let room: int = if inner >= 1 {
        inner - 1
    } else {
        0
    };
    let column: int = (cursor % 65536) as int;
    if column >= room {
        (column - room) as nat
    } else {
        0
    }
}

/// The screen column of the cursor in a bordered area that begins at column
/// `area_x`, for an input line that is shown from column `scroll` on; never
/// more than the last column that can be named.
pub open spec fn cursor_column_for(area_x: u16, cursor: nat, scroll: u16) -> nat {
    let column: int = (cursor % 65536) as int;
    let shown: int = if column >= scroll {
        column - scroll
    } else {
        0
    };
    if area_x + 1 + shown <= u16::MAX {
        (area_x + 1 + shown) as nat
    } else {
        u16::MAX as nat
    }
}

/// The number of transcript rows that fit into a bordered area.
pub fn transcript_height(area_height: u16) -> (rows: usize)
    ensures
        rows == inner_rows(area_height),
{
    area_height.saturating_sub(2) as usize
}

/// The column of the input line to show first.
pub fn input_scroll(cursor: usize, area_width: u16) -> (scroll: u16)
    ensures
        scroll == input_scroll_for(cursor as nat, area_width),
{
    let column: u16 = (cursor % 65536) as u16;
    let room: u16 = area_width.saturating_sub(2).saturating_sub(1);
    column.saturating_sub(room)
}

/// The screen column at which to show the cursor.
pub fn cursor_column(area_x: u16, cursor: usize, scroll: u16) -> (x: u16)
    ensures
        x == cursor_column_for(area_x, cursor as nat, scroll),
{
    let column: u16 = (cursor % 65536) as u16;
    area_x.saturating_add(1).saturating_add(column.saturating_sub(scroll))
}

} // verus!
