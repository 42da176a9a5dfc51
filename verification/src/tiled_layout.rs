//! The grid of tiles: which cell is selected, which rows and tiles are on
//! screen, and where each of them is drawn.

use crate::async_resource_manager::AsyncResourceManager;
use crate::cache_model::PipelineClosed;
use crate::json_parser::{RowInfo, TileInfo};
use crate::placement::{
    element_of, frame_of, grown, padding_of, place_tile, placement_views, position_of, row_center,
    RowPlacement, TilePlacement,
};
use crate::scene::{draw_row, row_shows, titles_in, urls_in, urls_of, DrawnRow};
use vstd::arithmetic::div_mod::{
    lemma_add_mod_noop_right, lemma_mod_sub_multiples_vanish, lemma_small_mod,
};
use vstd::prelude::*;

verus! {

/// The number of rows on screen, and of tiles on screen in each row.
pub const WINDOW_SIZE: usize = 4;

/// The position that follows `start` in a ring of `len` positions, going
/// forward or backward. An empty ring has nowhere to go.
pub open spec fn ring_step(start: int, len: int, forward: bool) -> int {
    if len <= 0 {
        start
    } else if forward {
        if start + 1 >= len {
            0
        } else {
            start + 1
        }
    } else if start == 0 {
        len - 1
    } else {
        start - 1
    }
}

/// A tile of the grid.
pub struct Tile {
    tile_info: TileInfo,
}

impl Tile {
    /// What the tile shows.
    pub closed spec fn info(&self) -> TileInfo {
        self.tile_info
    }

    pub fn new(tile_info: TileInfo) -> (tile: Self)
        ensures
            tile.info() == tile_info,
    {
        Self { tile_info }
    }
}

/// A row of the grid: a ring of tiles, of which a window is on screen.
pub struct TileRow {
    window_start: usize,
    window_size: usize,
    title: String,
    tiles: Vec<Tile>,
}

/// What a row holds.
pub struct RowView {
    /// The tile at the left edge of the window.
    pub window_start: nat,
    /// The number of tiles on screen.
    pub window_size: nat,
    pub title: Seq<char>,
    pub tiles: Seq<TileInfo>,
}

impl RowView {
    /// The window starts at a tile of the row, or at 0 in a row without tiles.
    pub open spec fn wf(self) -> bool {
        if self.tiles.len() == 0 {
            self.window_start == 0
        } else {
            self.window_start < self.tiles.len()
        }
    }

    /// The row with its window moved by one tile.
    pub open spec fn rotated(self, right: bool) -> Self {
        RowView {
            window_start: ring_step(
                self.window_start as int,
                self.tiles.len() as int,
                right,
            ) as nat,
            ..self
        }
    }
}

impl View for TileRow {
    type V = RowView;

    closed spec fn view(&self) -> RowView {
        RowView {
            window_start: self.window_start as nat,
            window_size: self.window_size as nat,
            title: self.title@,
            tiles: self.tiles@.map_values(|tile: Tile| tile.info()),
        }
    }
}

impl TileRow {
    /// A row of the tiles of `row_info`, with the window at the first tile.
    pub fn new_with_row_info(window_size: usize, row_info: RowInfo) -> (row: Self)
        ensures
            row@ == (RowView {
                window_start: 0,
                window_size: window_size as nat,
                title: row_info.title@,
                tiles: row_info.tiles@,
            }),
            row@.wf(),
    {
        let RowInfo { title, tiles: infos } = row_info;
        let ghost all = infos@;
        let mut tiles: Vec<Tile> = Vec::new();
        for info in it: infos
            invariant
                it.seq() == all,
                tiles.len() == it.index(),
                forall|j: int| 0 <= j < tiles.len() ==> (#[trigger] tiles[j]).info() == all[j],
        {
            tiles.push(Tile::new(info));
        }
        let row = Self { window_start: 0, window_size, title, tiles };
        assert(row@.tiles =~= all);
        row
    }

    /// The number of tiles of the row.
    pub fn tile_count(&self) -> (n: usize)
        ensures
            n == self@.tiles.len(),
    {
        self.tiles.len()
    }

    /// Moves the window by one tile, to the right or to the left, and round
    /// the ends of the row. A row without tiles stays as it is.
    pub fn rotate(&mut self, right: bool)
        requires
            old(self)@.wf(),
        ensures
            final(self)@ == old(self)@.rotated(right),
            final(self)@.wf(),
    {
        if self.tiles.len() == 0 {
            return ;
        }
        if right {
            self.window_start += 1;
            if self.window_start >= self.tiles.len() {
                self.window_start = 0;
            }
        } else if self.window_start == 0 {
            self.window_start = self.tiles.len() - 1;
        } else {
            self.window_start -= 1;
        }
    }
}

/// The position `offset` steps after `start` in a ring of `len` positions.
pub open spec fn ring_at(start: int, offset: int, len: int) -> int {
    (start + offset) % len
}

/// Computes [`ring_at`] without leaving the range of `usize`.
fn ring_index(start: usize, offset: usize, len: usize) -> (at: usize)
    requires
        start < len,
    ensures
        at == ring_at(start as int, offset as int, len as int),
        at < len,
{
    let within = offset % len;
    let gap = len - start;
    proof {
        lemma_add_mod_noop_right(start as int, offset as int, len as int);
        if within < gap {
            lemma_small_mod((start + within) as nat, len as nat);
        } else {
            lemma_mod_sub_multiples_vanish(start + within, len as int);
            lemma_small_mod((start + within - len) as nat, len as nat);
        }
    }
    if within < gap {
        start + within
    } else {
        within - gap
    }
}

/// A step of the selection.
#[derive(Clone, Copy, PartialEq, Eq, Debug, Structural)]
pub enum Direction {
    Up,
    Down,
    Left,
    Right,
}

/// The grid: a ring of rows, of which a window is on screen, and the
/// selected cell of that window.
pub struct TiledLayout {
    row_col: (usize, usize),
    window_start: usize,
    vert_window_size: usize,
    hori_window_size: usize,
    left_x: i32,
    upper_y: i32,
    tile_rows: Vec<TileRow>,
}

/// What the grid holds.
pub struct LayoutView {
    /// The selected cell's row within the window, counted from the top.
    pub row: nat,
    /// The selected cell's column within the window, counted from the left.
    pub col: nat,
    /// The row at the top of the window.
    pub window_start: nat,
    pub rows: Seq<RowView>,
}

impl LayoutView {
    /// The selected cell is in the window, the window starts at a row of the
    /// grid (at 0 in a grid without rows), and every row is in order and
    /// shows [`WINDOW_SIZE`] tiles.
    pub open spec fn wf(self) -> bool {
        &&& self.row < WINDOW_SIZE
        &&& self.col < WINDOW_SIZE
        &&& if self.rows.len() == 0 {
            self.window_start == 0
        } else {
            self.window_start < self.rows.len()
        }
        &&& forall|i: int|
            0 <= i < self.rows.len() ==> (#[trigger] self.rows[i]).wf() && self.rows[i].window_size
                == WINDOW_SIZE
    }

    /// The row of the grid in which the selected cell lies.
    pub open spec fn selected_row(self) -> int {
        ring_at(self.window_start as int, self.row as int, self.rows.len() as int)
    }

    /// The grid with the window of the selected row moved by one tile.
    pub open spec fn with_selected_row_rotated(self, right: bool) -> Self {
        LayoutView {
            rows: self.rows.update(
                self.selected_row(),
                self.rows[self.selected_row()].rotated(right),
            ),
            ..self
        }
    }

    /// The grid with its window moved by one row.
    pub open spec fn rotated(self, down: bool) -> Self {
        LayoutView {
            window_start: ring_step(
                self.window_start as int,
                self.rows.len() as int,
                down,
            ) as nat,
            ..self
        }
    }

    /// The step has to turn a ring: that of the rows, or that of the tiles
    /// of the selected row.
    pub open spec fn at_edge(self, direction: Direction) -> bool {
        match direction {
            Direction::Left => self.col == 0,
            Direction::Right => self.col == WINDOW_SIZE - 1,
            Direction::Up => self.row == 0,
            Direction::Down => self.row == WINDOW_SIZE - 1,
        }
    }

    /// The step can be taken: a grid without rows has no row to select and
    /// no ring of rows to turn upward.
    pub open spec fn accepts(self, direction: Direction) -> bool {
        self.at_edge(direction) && direction != Direction::Down ==> self.rows.len() > 0
    }

    /// The grid after a step of the selection: the selection moves inside
    /// the window, and at the window's edge the ring behind it turns instead.
    pub open spec fn after(self, direction: Direction) -> Self {
        match direction {
            Direction::Left => if self.col == 0 {
                self.with_selected_row_rotated(false)
            } else {
                LayoutView { col: (self.col - 1) as nat, ..self }
            },
            Direction::Right => if self.col == WINDOW_SIZE - 1 {
                self.with_selected_row_rotated(true)
            } else {
                LayoutView { col: self.col + 1, ..self }
            },
            Direction::Up => if self.row == 0 {
                self.rotated(false)
            } else {
                LayoutView { row: (self.row - 1) as nat, ..self }
            },
            Direction::Down => if self.row == WINDOW_SIZE - 1 {
                self.rotated(true)
            } else {
                LayoutView { row: self.row + 1, ..self }
            },
        }
    }
}

impl View for TiledLayout {
    type V = LayoutView;

    closed spec fn view(&self) -> LayoutView {
        LayoutView {
            row: self.row_col.0 as nat,
            col: self.row_col.1 as nat,
            window_start: self.window_start as nat,
            rows: self.tile_rows@.map_values(|row: TileRow| row@),
        }
    }
}

impl TiledLayout {
    /// The grid is in order: see [`LayoutView::wf`]. The window is
    /// [`WINDOW_SIZE`] rows high and as many tiles wide, and anchored at the
    /// upper left corner.
    pub closed spec fn wf(&self) -> bool {
        &&& self@.wf()
        &&& self.vert_window_size == WINDOW_SIZE
        &&& self.hori_window_size == WINDOW_SIZE
        &&& self.left_x == 0
        &&& self.upper_y == 0
    }

    /// What a grid in order is known to be: the selected cell is in the
    /// window, the window starts at a row of the grid, and every row is in
    /// order and shows [`WINDOW_SIZE`] tiles.
    pub proof fn lemma_wf(&self)
        requires
            self.wf(),
        ensures
            self@.wf(),
    {
    }

    /// A grid of the rows of `row_infos`, in their order, with the selection
    /// and every window at the upper left.
    pub fn new_with_row_infos(row_infos: Vec<RowInfo>) -> (layout: Self)
        ensures
            layout.wf(),
            layout@.row == 0,
            layout@.col == 0,
            layout@.window_start == 0,
            layout@.rows.len() == row_infos.len(),
            forall|i: int|
                0 <= i < row_infos.len() ==> #[trigger] layout@.rows[i] == (RowView {
                    window_start: 0,
                    window_size: WINDOW_SIZE as nat,
                    title: row_infos[i].title@,
                    tiles: row_infos[i].tiles@,
                }),
    {
        let hori_window_size = WINDOW_SIZE;
        let ghost all = row_infos@;
        let mut tile_rows: Vec<TileRow> = Vec::new();
        for info in it: row_infos
            invariant
                it.seq() == all,
                hori_window_size == WINDOW_SIZE,
                tile_rows.len() == it.index(),
                forall|i: int|
                    0 <= i < tile_rows.len() ==> (#[trigger] tile_rows[i])@ == (RowView {
                        window_start: 0,
                        window_size: WINDOW_SIZE as nat,
                        title: all[i].title@,
                        tiles: all[i].tiles@,
                    }),
        {
            tile_rows.push(TileRow::new_with_row_info(hori_window_size, info));
        }
        Self {
            row_col: (0, 0),
            window_start: 0,
            vert_window_size: WINDOW_SIZE,
            hori_window_size,
            left_x: 0,
            upper_y: 0,
            tile_rows,
        }
    }

    /// Moves the window by one row, down or up, and round the ends of the
    /// grid.
    pub fn rotate(&mut self, down: bool)
        requires
            old(self).wf(),
            down || old(self)@.rows.len() > 0,
        ensures
            final(self).wf(),
            final(self)@ == old(self)@.rotated(down),
    {
        assert(self@.rows.len() == self.tile_rows.len());
        if down {
            self.window_start += 1;
            if self.window_start >= self.tile_rows.len() {
                self.window_start = 0;
            }
        } else if self.window_start == 0 {
            self.window_start = self.tile_rows.len() - 1;
        } else {
            self.window_start -= 1;
        }
    }

    /// Whether the step can be taken. See [`LayoutView::accepts`].
    pub fn accepts(&self, direction: Direction) -> (ok: bool)
        requires
            self.wf(),
        ensures
            ok == self@.accepts(direction),
    {
        let at_edge = match direction {
            Direction::Left => self.row_col.1 == 0,
            Direction::Right => self.row_col.1 == self.hori_window_size - 1,
            Direction::Up => self.row_col.0 == 0,
            Direction::Down => false,
        };
        !at_edge || self.tile_rows.len() > 0
    }

    /// Takes a step of the selection.
    pub fn handle_direction(&mut self, direction: Direction)
        requires
            old(self).wf(),
            old(self)@.accepts(direction),
        ensures
            final(self).wf(),
            final(self)@ == old(self)@.after(direction),
    {
        match direction {
            Direction::Left => {
                if self.row_col.1 == 0 {
                    let idx = ring_index(self.window_start, self.row_col.0, self.tile_rows.len());
                    assert(self@.rows[idx as int] == self.tile_rows[idx as int]@);
                    self.tile_rows[idx].rotate(false);
                    assert(self@.rows =~= old(self)@.with_selected_row_rotated(false).rows);
                } else {
                    self.row_col.1 -= 1;
                }
            },
            Direction::Right => {
                if self.row_col.1 == self.hori_window_size - 1 {
                    let idx = ring_index(self.window_start, self.row_col.0, self.tile_rows.len());
                    assert(self@.rows[idx as int] == self.tile_rows[idx as int]@);
                    self.tile_rows[idx].rotate(true);
                    assert(self@.rows =~= old(self)@.with_selected_row_rotated(true).rows);
                } else {
                    self.row_col.1 += 1;
                }
            },
            Direction::Up => {
                if self.row_col.0 == 0 {
                    self.rotate(false);
                } else {
                    self.row_col.0 -= 1;
                }
            },
            Direction::Down => {
                if self.row_col.0 == self.vert_window_size - 1 {
                    self.rotate(true);
                } else {
                    self.row_col.0 += 1;
                }
            },
        }
    }
}

impl Tile {
    /// Where the tile is drawn, with its centre at `pos`.
    pub fn place(&self, pos: (i32, i32), width: u32, height: u32, selected: bool) -> (out:
        TilePlacement)
        requires
            selected ==> grown(width as int, true) + 2 <= u32::MAX && grown(height as int, true)
                + 2 <= u32::MAX,
        ensures
            out@ == place_tile(
                self.info(),
                pos.0 as int,
                pos.1 as int,
                width as int,
                height as int,
                selected,
            ),
    {
        let (width, height) = if selected {
            (width + width / 10, height + height / 10)
        } else {
            (width, height)
        };
        let outline = if selected {
            Some((width + 2, height + 2))
        } else {
            None
        };
        TilePlacement {
            img_url: self.tile_info.img_url.clone(),
            center_x: pos.0,
            center_y: pos.1,
            width,
            height,
            outline,
        }
    }
}

impl TileRow {
    /// Where the row is drawn: the title above, the tiles of the window from
    /// left to right. `selected` is the position in the window of the
    /// selected tile, if it is in this row.
    pub fn place(
        &self,
        left_x: i32,
        center_y: i32,
        element_width: u32,
        element_height: u32,
        padding: (u32, u32),
        selected: Option<usize>,
    ) -> (out: RowPlacement)
        requires
            self@.wf(),
            frame_of(left_x, center_y, element_width, element_height, padding).fits(),
            self@.tiles.len() > 0 ==> frame_of(
                left_x,
                center_y,
                element_width,
                element_height,
                padding,
            ).fits_tiles(self@.window_size as int),
        ensures
            out@ == self@.place(
                frame_of(left_x, center_y, element_width, element_height, padding),
                position_of(selected),
            ),
    {
        let ghost frame = frame_of(left_x, center_y, element_width, element_height, padding);
        let (w_padding, h_padding) = padding;
        let text_y = center_y - element_height as i32 / 2 - h_padding as i32 / 2;
        let mut tiles: Vec<TilePlacement> = Vec::new();
        if self.tiles.len() == 0 {
            let out = RowPlacement { title: self.title.clone(), left_x, text_y, tiles };
            assert(out@.tiles =~= self@.place(frame, position_of(selected)).tiles);
            return out;
        }
        let tile_y = center_y;
        let mut tile_x = left_x + w_padding as i32 / 2 + element_width as i32 / 2;
        let mut i: usize = 0;
        while i < self.window_size
            invariant
                self@.wf(),
                self.tiles.len() > 0,
                frame.fits(),
                frame.fits_tiles(self@.window_size as int),
                frame == frame_of(
                    left_x,
                    center_y,
                    element_width,
                    element_height,
                    (w_padding, h_padding),
                ),
                tile_y == center_y,
                i <= self.window_size,
                tile_x == frame.tile_x(i as int),
                tiles.len() == i,
                forall|j: int|
                    0 <= j < i ==> (#[trigger] tiles[j])@ == place_tile(
                        self@.tile_on_screen(j),
                        frame.tile_x(j),
                        frame.center_y,
                        frame.element_width,
                        frame.element_height,
                        position_of(selected) == Some(j),
                    ),
            decreases self.window_size - i,
        {
            let at = ring_index(self.window_start, i, self.tiles.len());
            let is_selected = match selected {
                Some(j) => i == j,
                None => false,
            };
            proof {
                let step = frame.element_width + frame.w_padding;
                let shown = self@.window_size as int;
                assert((i + 1) * step == i * step + step) by (nonlinear_arith);
                assert((i + 1) * step <= shown * step) by (nonlinear_arith)
                    requires
                        i + 1 <= shown,
                        step >= 0,
                ;
            }
            let placed = self.tiles[at].place(
                (tile_x, tile_y),
                element_width,
                element_height,
                is_selected,
            );
            tiles.push(placed);
            tile_x += element_width as i32 + w_padding as i32;
            i += 1;
        }
        let out = RowPlacement { title: self.title.clone(), left_x, text_y, tiles };
        assert(out@.tiles =~= self@.place(frame, position_of(selected)).tiles);
        out
    }
}

impl TiledLayout {
    /// Where everything is drawn on a screen of the given size: the rows of
    /// the window from the top, each with its title and its tiles.
    pub fn place(&self, width: u32, height: u32) -> (out: Vec<RowPlacement>)
        requires
            self.wf(),
            self@.fits(width as int, height as int),
        ensures
            out@.map_values(|row: RowPlacement| row@) == self@.place(width as int, height as int),
    {
        let mut out: Vec<RowPlacement> = Vec::new();
        if self.tile_rows.len() == 0 {
            return out;
        }
        let (w_padding, h_padding) = (width / 20, height / 20);
        let element_height = height / (self.vert_window_size as u32) - h_padding;
        let element_width = width / (self.hori_window_size as u32) - w_padding;
        let mut center_y = self.upper_y + h_padding as i32 + element_height as i32 / 2;
        let mut i: usize = 0;
        while i < self.vert_window_size
            invariant
                self.wf(),
                self.tile_rows.len() > 0,
                self@.fits(width as int, height as int),
                w_padding == padding_of(width as int),
                h_padding == padding_of(height as int),
                element_width == element_of(width as int),
                element_height == element_of(height as int),
                i <= self.vert_window_size,
                center_y == row_center(height as int, i as int),
                out.len() == i,
                forall|k: int|
                    0 <= k < i ==> (#[trigger] out[k])@ == self@.row_on_screen(k).place(
                        LayoutView::frame(width as int, height as int, k),
                        if k == self@.row {
                            Some(self@.col as int)
                        } else {
                            None
                        },
                    ),
            decreases self.vert_window_size - i,
        {
            let at = ring_index(self.window_start, i, self.tile_rows.len());
            let selected = if i == self.row_col.0 {
                Some(self.row_col.1)
            } else {
                None
            };
            proof {
                let step = element_of(height as int) + padding_of(height as int);
                let frame = LayoutView::frame(width as int, height as int, i as int);
                assert((i + 1) * step == i * step + step) by (nonlinear_arith);
                assert((i + 1) * step <= WINDOW_SIZE * step) by (nonlinear_arith)
                    requires
                        i + 1 <= WINDOW_SIZE,
                        step >= 0,
                ;
                assert(i * step >= 0) by (nonlinear_arith)
                    requires
                        i >= 0,
                        step >= 0,
                ;
                assert(self@.row_on_screen(i as int) == self.tile_rows[at as int]@);
                assert(frame.fits());
                if self.tile_rows[at as int]@.tiles.len() > 0 {
                    assert(self@.shows_tiles());
                    assert(WINDOW_SIZE * (frame.element_width + frame.w_padding) >= 0)
                        by (nonlinear_arith)
                        requires
                            frame.element_width + frame.w_padding >= 0,
                    ;
                    assert(frame.fits_tiles(WINDOW_SIZE as int));
                }
            }
            let placed = self.tile_rows[at].place(
                self.left_x,
                center_y,
                element_width,
                element_height,
                (w_padding, h_padding),
                selected,
            );
            out.push(placed);
            center_y += element_height as i32 + h_padding as i32;
            i += 1;
        }
        out
    }
}

/// The furthest coordinate that is computed along an axis on which the
/// screen has the given extent and the first element is `lead` from the
/// edge: one step past the last element of the window.
fn reach(extent: u32, lead: u32) -> (far: u64)
    requires
        lead <= padding_of(extent as int),
    ensures
        far == lead + element_of(extent as int) / 2 + WINDOW_SIZE * (element_of(extent as int)
            + padding_of(extent as int)),
{
    let padding: u64 = (extent / 20) as u64;
    let element: u64 = (extent / 4) as u64 - padding;
    lead as u64 + element / 2 + 4 * (element + padding)
}

impl TiledLayout {
    /// Whether a screen of this size can be drawn on. See
    /// [`LayoutView::fits`].
    pub fn fits(&self, width: u32, height: u32) -> (ok: bool)
        requires
            self.wf(),
        ensures
            ok == self@.fits(width as int, height as int),
    {
        if self.tile_rows.len() == 0 {
            return true;
        }
        if reach(height, height / 20) > 0x7fff_ffff {
            return false;
        }
        let mut shows_tiles = false;
        let mut i: usize = 0;
        while i < self.vert_window_size
            invariant
                self.wf(),
                self.tile_rows.len() > 0,
                i <= self.vert_window_size,
                shows_tiles <==> exists|k: int|
                    0 <= k < i && (#[trigger] self@.row_on_screen(k)).tiles.len() > 0,
            decreases self.vert_window_size - i,
        {
            let at = ring_index(self.window_start, i, self.tile_rows.len());
            assert(self@.row_on_screen(i as int) == self.tile_rows[at as int]@);
            if self.tile_rows[at].tile_count() > 0 {
                shows_tiles = true;
            }
            i += 1;
        }
        !shows_tiles || reach(width, width / 20 / 2) <= 0x7fff_ffff
    }
}

impl TiledLayout {
    /// What is drawn on a screen of the given size: the rows of the window
    /// from the top, each with its rendered title and its tiles, and every
    /// tile with its image if the cache has it.
    ///
    /// It never waits: an image that the cache has not is asked for, if it is
    /// not under way already, and its tile is drawn without it. The images
    /// are those that the cache had when the drawing began; what a poll
    /// brings in shows in the next drawing.
    ///
    /// The one failure is a lookup that finds the pipeline shut down, at
    /// which the drawing stops.
    pub fn draw<A, D: Fn(&[u8]) -> Option<A>, R: Fn(&str) -> (A, (u32, u32))>(
        &self,
        texture_manager: &mut AsyncResourceManager<A, D, R>,
        width: u32,
        height: u32,
    ) -> (out: Result<Vec<DrawnRow<A>>, PipelineClosed>)
        requires
            self.wf(),
            self@.fits(width as int, height as int),
            old(texture_manager).wf(),
        ensures
            final(texture_manager).wf(),
            final(texture_manager).same_backend(old(texture_manager)),
            old(texture_manager)@.leads_to(
                final(texture_manager)@,
                urls_in(self@.place(width as int, height as int)),
                titles_in(self@.place(width as int, height as int)),
            ),
            old(texture_manager).rendered_since(old(texture_manager)@, final(texture_manager)@),
            old(texture_manager).handles() == final(texture_manager).handles().restrict(
                old(texture_manager)@.in_flight,
            ),
            match out {
                Ok(rows) => {
                    &&& rows.len() == self@.place(width as int, height as int).len()
                    &&& forall|i: int|
                        0 <= i < rows.len() ==> row_shows(
                            #[trigger] rows[i],
                            self@.place(width as int, height as int)[i],
                            old(texture_manager)@,
                            final(texture_manager)@,
                        )
                },
                Err(_) => exists|url: Seq<char>|
                    urls_in(self@.place(width as int, height as int)).contains(url) && old(
                        texture_manager,
                    )@.unknown(url),
            },
    {
        let placements = self.place(width, height);
        let ghost placed = self@.place(width as int, height as int);
        let ghost all = placements@;
        let ghost start = texture_manager@;
        proof {
            texture_manager.lemma_wf();
            assert(texture_manager.handles() =~= texture_manager.handles().restrict(
                start.in_flight,
            ));
        }
        let mut rows: Vec<DrawnRow<A>> = Vec::new();
        for row in it: placements
            invariant
                it.seq() == all,
                placement_views(all) == placed,
                placed == self@.place(width as int, height as int),
                texture_manager.wf(),
                texture_manager.same_backend(old(texture_manager)),
                start == old(texture_manager)@,
                start.leads_to(texture_manager@, urls_in(placed), titles_in(placed)),
                old(texture_manager).rendered_since(start, texture_manager@),
                old(texture_manager).handles() == texture_manager.handles().restrict(
                    start.in_flight,
                ),
                rows.len() == it.index(),
                forall|i: int|
                    0 <= i < rows.len() ==> row_shows(
                        #[trigger] rows[i],
                        placed[i],
                        start,
                        texture_manager@,
                    ),
        {
            let ghost before = texture_manager@;
            let ghost earlier = *texture_manager;
            assert(row@ == placed[rows.len() as int]);
            let drawn = draw_row(texture_manager, row);
            proof {
                earlier.lemma_wf();
                assert(old(texture_manager).handles() =~= texture_manager.handles().restrict(
                    start.in_flight,
                ));
            }
            match drawn {
                Ok(drawn) => {
                    rows.push(drawn);
                },
                Err(closed) => {
                    proof {
                        let url = choose|url: Seq<char>|
                            urls_of(placed[rows.len() as int]).contains(url) && before.unknown(url);
                        assert(urls_in(placed).contains(url) && start.unknown(url));
                    }
                    return Err(closed);
                },
            }
        }
        Ok(rows)
    }
}

} // verus!
