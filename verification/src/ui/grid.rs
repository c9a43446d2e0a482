//! The grid of thumbnails on the screen.

use vstd::prelude::*;
use vstd::utf8::{decode_utf8, encode_utf8, is_char_boundary};

use super::Rect;
use crate::numbers::{least, max_u16, min_u16, min_usize, most};
use crate::state::{AppState, StateView};
use crate::text::joined;

verus! {

/// How cells are laid out in an area.
#[derive(Debug, Clone, Copy, PartialEq, Eq, Structural)]
pub struct GridLayout {
    pub cols: usize,
    pub rows: usize,
    pub page_size: usize,
    pub cell_width: u16,
    pub cell_height: u16,
}

/// The width that cells are to have, at least.
pub const TARGET_CELL_WIDTH: u16 = 18;

/// The height that cells are to have, at least.
pub const TARGET_CELL_HEIGHT: u16 = 10;

/// How cells are laid out in an area: as many as fit in their target size, and at
/// least one; they share the area evenly.
pub open spec fn grid_layout(area: Rect) -> GridLayout {
    let cols = most(area.width as int / 18, 1);
    let rows = most(area.height as int / 10, 1);
    GridLayout {
        cols: cols as usize,
        rows: rows as usize,
        page_size: (cols * rows) as usize,
        cell_width: most(area.width as int / cols, 1) as u16,
        cell_height: most(area.height as int / rows, 1) as u16,
    }
}

pub fn compute_grid_layout(area: Rect) -> (layout: GridLayout)
    ensures
        layout == grid_layout(area),
        layout.page_size >= 1,
{
    let cols: u16 = max_u16(area.width / TARGET_CELL_WIDTH, 1);
    let rows: u16 = max_u16(area.height / TARGET_CELL_HEIGHT, 1);
    proof {
        assert(1 <= cols * rows <= 6553 * 6553) by (nonlinear_arith)
            requires
                1 <= cols <= 6553,
                1 <= rows <= 6553,
        ;
        vstd::arithmetic::div_mod::lemma_div_pos_is_pos(area.width as int, cols as int);
        vstd::arithmetic::div_mod::lemma_div_pos_is_pos(area.height as int, rows as int);
        assert(area.width as int / cols as int <= area.width) by (nonlinear_arith)
            requires
                cols >= 1,
                area.width >= 0,
        ;
        assert(area.height as int / rows as int <= area.height) by (nonlinear_arith)
            requires
                rows >= 1,
                area.height >= 0,
        ;
    }
    GridLayout {
        cols: cols as usize,
        rows: rows as usize,
        page_size: cols as usize * rows as usize,
        cell_width: max_u16(area.width / cols, 1),
        cell_height: max_u16(area.height / rows, 1),
    }
}

/// The cells of the page that is shown: from one up to another.
pub struct PageView {
    pub page: int,
    pub start: int,
    pub end: int,
}

/// The page of some cells that the one at a position is on.
pub open spec fn page_of(position: int, page_size: int, cells: int) -> PageView {
    let page = position / page_size;
    PageView { page, start: page * page_size, end: least(page * page_size + page_size, cells) }
}

/// Whether the first place of an index in a list is a position.
pub open spec fn first_match(indices: Seq<usize>, index: usize, position: int) -> bool {
    &&& 0 <= position < indices.len()
    &&& indices[position] == index
    &&& forall|i: int| 0 <= i < position ==> #[trigger] indices[i] != index
}

/// The first place of an index in a list; the first of all where it is not in it.
pub open spec fn shown_position(indices: Seq<usize>, index: usize) -> int {
    if exists|position: int| first_match(indices, index, position) {
        choose|position: int| first_match(indices, index, position)
    } else {
        0
    }
}

/// Turns the grid to the page of the current entry; returns the indices of the
/// entries on it.
pub fn turn_to_current(state: &mut AppState, layout: &GridLayout, indices: &Vec<usize>) -> (shown:
    Vec<usize>)
    requires
        layout.page_size >= 1,
        indices@.len() > 0,
    ensures
        ({
            let page = page_of(
                shown_position(indices@, old(state)@.current_index),
                layout.page_size as int,
                indices@.len() as int,
            );
            &&& final(state)@ == (StateView {
                last_grid_page_size: layout.page_size,
                grid_page: page.page as usize,
                ..old(state)@
            })
            &&& shown@ == indices@.subrange(page.start, page.end)
        }),
{
    state.last_grid_page_size = layout.page_size;
    let current: usize = state.current_index;
    let mut position: usize = 0;
    let mut index: usize = 0;
    let mut found = false;
    while index < indices.len() && !found
        invariant
            index <= indices@.len(),
            !found ==> position == 0,
            !found ==> forall|i: int| 0 <= i < index ==> indices@[i] != current,
            found ==> first_match(indices@, current, position as int),
        decreases indices@.len() - index,
    {
        if indices[index] == current {
            position = index;
            found = true;
        }
        index += 1;
    }
    proof {
        if found {
            let first = shown_position(indices@, current);
            assert(first_match(indices@, current, first));
            if first < position {
                assert(indices@[first] != current);
            }
            if position < first {
                assert(indices@[position as int] != current);
            }
        }
        assert(position == shown_position(indices@, current));
        assert(position < indices@.len());
    }
    let page: usize = position / layout.page_size;
    state.grid_page = page;
    proof {
        vstd::arithmetic::div_mod::lemma_fundamental_div_mod(
            position as int,
            layout.page_size as int,
        );
        assert(page * layout.page_size == layout.page_size * page) by (nonlinear_arith);
        assert(indices@.len() == indices.len());
    }
    let start: usize = page * layout.page_size;
    let end: usize = min_usize(start.saturating_add(layout.page_size), indices.len());
    let mut shown: Vec<usize> = Vec::new();
    let mut at: usize = start;
    assert(shown@ =~= indices@.subrange(start as int, start as int));
    while at < end
        invariant
            start <= at <= end <= indices@.len(),
            shown@ == indices@.subrange(start as int, at as int),
        decreases end - at,
    {
        shown.push(indices[at]);
        at += 1;
        assert(shown@ =~= indices@.subrange(start as int, at as int));
    }
    shown
}

/// The area of the cell at a position on the page; cells at the edge are cut off.
pub open spec fn cell_area(area: Rect, layout: GridLayout, position: int) -> Rect {
    let left = (position % layout.cols as int) * layout.cell_width;
    let top = (position / layout.cols as int) * layout.cell_height;
    Rect {
        x: (area.x + left) as u16,
        y: (area.y + top) as u16,
        width: least(layout.cell_width as int, most(area.width - left, 0)) as u16,
        height: least(layout.cell_height as int, most(area.height - top, 0)) as u16,
    }
}

/// The area of the cell at a position on the page.
pub fn cell_rect(area: Rect, position: usize) -> (rect: Rect)
    requires
        area.valid(),
        position < grid_layout(area).page_size,
    ensures
        rect == cell_area(area, grid_layout(area), position as int),
{
    let layout = compute_grid_layout(area);
    let row: usize = position / layout.cols;
    let col: usize = position % layout.cols;
    proof {
        let cols = layout.cols as int;
        let rows = layout.rows as int;
        vstd::arithmetic::div_mod::lemma_fundamental_div_mod(position as int, cols);
        vstd::arithmetic::div_mod::lemma_mod_bound(position as int, cols);
        assert(row < rows) by (nonlinear_arith)
            requires
                position == cols * row + col,
                position < cols * rows,
                0 <= col,
                cols > 0,
        ;
        vstd::arithmetic::div_mod::lemma_fundamental_div_mod(area.width as int, cols);
        vstd::arithmetic::div_mod::lemma_fundamental_div_mod(area.height as int, rows);
        if area.width > 0 {
            lemma_cells_fit(area.width as int, cols, layout.cell_width as int);
        } else {
            assert(col * layout.cell_width == 0) by (nonlinear_arith)
                requires
                    col == 0,
            ;
        }
        if area.height > 0 {
            lemma_cells_fit(area.height as int, rows, layout.cell_height as int);
        } else {
            assert(row * layout.cell_height == 0) by (nonlinear_arith)
                requires
                    row == 0,
            ;
        }
        assert(0 <= col * layout.cell_width <= cols * layout.cell_width) by (nonlinear_arith)
            requires
                0 <= col < cols,
                0 <= layout.cell_width,
        ;
        assert(0 <= row * layout.cell_height <= rows * layout.cell_height) by (nonlinear_arith)
            requires
                0 <= row < rows,
                0 <= layout.cell_height,
        ;
    }
    let left: u16 = col as u16 * layout.cell_width;
    let top: u16 = row as u16 * layout.cell_height;
    Rect {
        x: area.x + left,
        y: area.y + top,
        width: min_u16(layout.cell_width, area.width.saturating_sub(left)),
        height: min_u16(layout.cell_height, area.height.saturating_sub(top)),
    }
}

/// Cells that share a length evenly fit into it.
proof fn lemma_cells_fit(length: int, count: int, each: int)
    requires
        length >= 1,
        count >= 1,
        count <= length,
        each == most(length / count, 1),
    ensures
        count * each <= length,
{
    vstd::arithmetic::div_mod::lemma_fundamental_div_mod(length, count);
    vstd::arithmetic::div_mod::lemma_mod_bound(length, count);
    assert(length / count >= 1) by (nonlinear_arith)
        requires
            length >= count,
            count >= 1,
    ;
}

/// A text of at most some bytes: a longer one is cut and ends in `~`.
pub open spec fn shortened(text: Seq<char>, max: int) -> Seq<char> {
    let bytes = encode_utf8(text);
    if bytes.len() <= max {
        text
    } else {
        decode_utf8(bytes.take(most(max - 1, 0))).push('~')
    }
}

/// Whether a text is short enough, or can be cut where it has to be.
pub open spec fn can_shorten(text: Seq<char>, max: int) -> bool {
    let bytes = encode_utf8(text);
    bytes.len() <= max || is_char_boundary(bytes, most(max - 1, 0))
}

/// Cuts a text to at most some bytes.
fn shorten(text: &str, max: usize) -> (result: String)
    requires
        can_shorten(text@, max as int),
    ensures
        result@ == shortened(text@, max as int),
{
    broadcast use vstd::utf8::encode_utf8_decode_utf8;

    if text.as_bytes().len() <= max {
        return text.to_owned();
    }
    let cut: usize = max.saturating_sub(1);
    let (head, _) = text.split_at(cut);
    assert(encode_utf8(head@) =~= encode_utf8(text@).take(cut as int));
    let mut result = head.to_owned();
    result.push('~');
    result
}

/// The title of a cell before it is cut.
pub open spec fn full_title(name: Seq<char>, queued: bool) -> Seq<char> {
    if queued {
        "DEL "@ + name
    } else {
        ""@ + name
    }
}

/// The title of a cell of a width, within its frame.
pub fn cell_title(name: &str, queued: bool, width: u16) -> (title: String)
    requires
        can_shorten(full_title(name@, queued), most(width - 2, 0)),
    ensures
        title@ == shortened(full_title(name@, queued), most(width - 2, 0)),
{
    let title = joined(
        if queued {
            "DEL "
        } else {
            ""
        },
        name,
    );
    shorten(title.as_str(), width.saturating_sub(2) as usize)
}

/// A text in a cell of a width.
pub fn truncate(value: &str, width: u16) -> (text: String)
    requires
        can_shorten(value@, width as int),
    ensures
        text@ == shortened(value@, width as int),
{
    shorten(value, width as usize)
}

/// A grid has as many columns of eighteen cells and as many rows of ten as fit, and at
/// least one of each; they share the area evenly, and no more of them would fit.
pub proof fn law_layout_fills_the_area(area: Rect)
    requires
        area.width >= 18,
        area.height >= 10,
    ensures
        ({
            let layout = grid_layout(area);
            &&& layout.cols * 18 <= area.width < (layout.cols + 1) * 18
            &&& layout.rows * 10 <= area.height < (layout.rows + 1) * 10
            &&& layout.page_size == layout.cols * layout.rows
            &&& layout.cols * layout.cell_width <= area.width < layout.cols * (layout.cell_width
                + 1)
            &&& layout.rows * layout.cell_height <= area.height < layout.rows * (
            layout.cell_height + 1)
            &&& layout.cell_width >= 18
            &&& layout.cell_height >= 10
        }),
        grid_layout(Rect { width: 17, ..area }).cols == 1,
        grid_layout(Rect { height: 9, ..area }).rows == 1,
{
    let layout = grid_layout(area);
    let (cols, rows) = (area.width as int / 18, area.height as int / 10);
    lemma_shared_evenly(area.width as int, cols, 18);
    lemma_shared_evenly(area.height as int, rows, 10);
    assert(1 <= cols * rows <= 6553 * 6553) by (nonlinear_arith)
        requires
            1 <= cols <= 6553,
            1 <= rows <= 6553,
    ;
}

/// As many parts of a least size as fit into a length, sharing it evenly.
proof fn lemma_shared_evenly(length: int, count: int, target: int)
    requires
        target >= 1,
        length >= target,
        length <= u16::MAX,
        count == length / target,
    ensures
        1 <= count <= length,
        count * target <= length < (count + 1) * target,
        count * (length / count) <= length < count * (length / count + 1),
        target <= length / count <= length,
{
    vstd::arithmetic::div_mod::lemma_fundamental_div_mod(length, target);
    vstd::arithmetic::div_mod::lemma_mod_bound(length, target);
    assert(1 <= count <= length && count * target <= length < (count + 1) * target)
        by (nonlinear_arith)
        requires
            length == target * count + length % target,
            0 <= length % target < target,
            length >= target,
            target >= 1,
    ;
    let each = length / count;
    vstd::arithmetic::div_mod::lemma_fundamental_div_mod(length, count);
    vstd::arithmetic::div_mod::lemma_mod_bound(length, count);
    assert(count * each <= length < count * (each + 1)) by (nonlinear_arith)
        requires
            length == count * each + length % count,
            0 <= length % count < count,
    ;
    assert(target <= each <= length) by (nonlinear_arith)
        requires
            count * target <= length,
            length < count * (each + 1),
            count * each <= length,
            count >= 1,
            length >= 1,
    ;
}

/// The cells of a page lie within the area of the grid and do not overlap: a later one
/// lies to the right in the same row, or in a lower row.
pub proof fn law_cells_lie_apart(area: Rect, earlier: int, later: int)
    requires
        area.valid(),
        area.width >= 18,
        area.height >= 10,
        0 <= earlier < later < grid_layout(area).page_size,
    ensures
        ({
            let one = cell_area(area, grid_layout(area), earlier);
            let other = cell_area(area, grid_layout(area), later);
            &&& area.x <= one.x && one.x + one.width <= area.x + area.width
            &&& area.y <= one.y && one.y + one.height <= area.y + area.height
            &&& one.width >= 18 && one.height >= 10
            &&& (one.y == other.y && one.x + one.width <= other.x) || one.y + one.height
                <= other.y
        }),
{
    let layout = grid_layout(area);
    let (cols, rows) = (layout.cols as int, layout.rows as int);
    let (width, height) = (layout.cell_width as int, layout.cell_height as int);
    law_layout_fills_the_area(area);
    lemma_place_in_rows(earlier, cols, rows);
    lemma_place_in_rows(later, cols, rows);
    lemma_cell_offset(earlier % cols, cols, width, area.width as int);
    lemma_cell_offset(later % cols, cols, width, area.width as int);
    lemma_cell_offset(earlier / cols, rows, height, area.height as int);
    lemma_cell_offset(later / cols, rows, height, area.height as int);
    let (r0, r1) = (earlier / cols, later / cols);
    let (c0, c1) = (earlier % cols, later % cols);
    assert(r0 < r1 || (r0 == r1 && c0 < c1)) by (nonlinear_arith)
        requires
            earlier == cols * r0 + c0,
            later == cols * r1 + c1,
            earlier < later,
            0 <= c0 < cols,
            0 <= c1 < cols,
    ;
    if r0 < r1 {
        assert(r0 * height + height <= r1 * height) by (nonlinear_arith)
            requires
                r0 < r1,
                height >= 0,
        ;
    } else {
        assert(c0 * width + width <= c1 * width) by (nonlinear_arith)
            requires
                c0 < c1,
                width >= 0,
        ;
    }
}

proof fn lemma_place_in_rows(position: int, cols: int, rows: int)
    requires
        0 <= position < cols * rows,
        cols >= 1,
    ensures
        position == cols * (position / cols) + position % cols,
        0 <= position % cols < cols,
        0 <= position / cols < rows,
{
    let (row, col) = (position / cols, position % cols);
    vstd::arithmetic::div_mod::lemma_fundamental_div_mod(position, cols);
    vstd::arithmetic::div_mod::lemma_mod_bound(position, cols);
    assert(0 <= row < rows) by (nonlinear_arith)
        requires
            position == cols * row + col,
            0 <= position < cols * rows,
            0 <= col < cols,
    ;
}

proof fn lemma_cell_offset(index: int, count: int, each: int, length: int)
    requires
        0 <= index < count,
        each >= 0,
        count * each <= length,
    ensures
        0 <= index * each,
        index * each + each <= length,
{
    assert(0 <= index * each && index * each + each <= count * each) by (nonlinear_arith)
        requires
            0 <= index < count,
            each >= 0,
    ;
}

/// The page of a cell holds it; pages follow each other without a gap, and all but the last
/// are full.
pub proof fn law_pages_hold_their_cells(position: int, page_size: int, cells: int)
    requires
        page_size >= 1,
        0 <= position < cells,
    ensures
        ({
            let page = page_of(position, page_size, cells);
            &&& page.start <= position < page.end <= cells
            &&& page.start == page.page * page_size
            &&& page.end == cells || page.end == (page.page + 1) * page_size
            &&& page.end - page.start <= page_size
        }),
{
    let page = position / page_size;
    vstd::arithmetic::div_mod::lemma_fundamental_div_mod(position, page_size);
    vstd::arithmetic::div_mod::lemma_mod_bound(position, page_size);
    assert(page_size * page == page * page_size) by (nonlinear_arith);
    assert((page + 1) * page_size == page * page_size + page_size) by (nonlinear_arith);
}

/// The grid turns to the place at which the current entry is shown first, and to the
/// beginning where it is not shown.
pub proof fn law_the_current_cell_is_found(indices: Seq<usize>, index: usize, position: int)
    requires
        0 <= position < indices.len(),
    ensures
        indices[position] == index ==> 0 <= shown_position(indices, index) <= position
            && indices[shown_position(indices, index)] == index,
        !indices.contains(index) ==> shown_position(indices, index) == 0,
    decreases position,
{
    if indices[position] == index {
        if first_match(indices, index, position) {
        } else {
            let earlier = choose|i: int| 0 <= i < position && #[trigger] indices[i] == index;
            law_the_current_cell_is_found(indices, index, earlier);
        }
        let found = shown_position(indices, index);
        assert(exists|at: int| first_match(indices, index, at)) by {
            if !first_match(indices, index, position) {
                lemma_first_match(indices, index, position);
            }
        }
        assert(first_match(indices, index, found));
        if position < found {
            assert(indices[position] != index);
        }
    }
}

proof fn lemma_first_match(indices: Seq<usize>, index: usize, position: int)
    requires
        0 <= position < indices.len(),
        indices[position] == index,
    ensures
        exists|at: int| first_match(indices, index, at),
    decreases position,
{
    if !first_match(indices, index, position) {
        let earlier = choose|i: int| 0 <= i < position && #[trigger] indices[i] == index;
        lemma_first_match(indices, index, earlier);
    }
}

} // verus!
