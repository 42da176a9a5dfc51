//! Where the rows and tiles of the grid are drawn on a screen of a given
//! size.

use crate::json_parser::TileInfo;
use crate::tiled_layout::{ring_at, LayoutView, RowView, WINDOW_SIZE};
use vstd::prelude::*;

verus! {

/// Where a tile is drawn: its image, the centre and the size of its
/// rectangle, and for the selected tile the size of the frame behind it.
#[derive(Debug)]
pub struct TilePlacement {
    pub img_url: String,
    pub center_x: i32,
    pub center_y: i32,
    pub width: u32,
    pub height: u32,
    pub outline: Option<(u32, u32)>,
}

/// A [`TilePlacement`] as plain values.
pub struct TilePlacementView {
    pub img_url: Seq<char>,
    pub center_x: int,
    pub center_y: int,
    pub width: int,
    pub height: int,
    pub outline: Option<(int, int)>,
}

impl View for TilePlacement {
    type V = TilePlacementView;

    open spec fn view(&self) -> TilePlacementView {
        TilePlacementView {
            img_url: self.img_url@,
            center_x: self.center_x as int,
            center_y: self.center_y as int,
            width: self.width as int,
            height: self.height as int,
            outline: match self.outline {
                Some((w, h)) => Some((w as int, h as int)),
                None => None,
            },
        }
    }
}

/// Where a row is drawn: its title, the left end and the height of the
/// title's centre line, and the tiles on screen from left to right.
#[derive(Debug)]
pub struct RowPlacement {
    pub title: String,
    pub left_x: i32,
    pub text_y: i32,
    pub tiles: Vec<TilePlacement>,
}

/// A [`RowPlacement`] as plain values.
pub struct RowPlacementView {
    pub title: Seq<char>,
    pub left_x: int,
    pub text_y: int,
    pub tiles: Seq<TilePlacementView>,
}

impl View for RowPlacement {
    type V = RowPlacementView;

    open spec fn view(&self) -> RowPlacementView {
        RowPlacementView {
            title: self.title@,
            left_x: self.left_x as int,
            text_y: self.text_y as int,
            tiles: self.tiles@.map_values(|tile: TilePlacement| tile@),
        }
    }
}

/// The size of a tile along one axis: the selected tile is a tenth larger.
pub open spec fn grown(extent: int, selected: bool) -> int {
    if selected {
        extent + extent / 10
    } else {
        extent
    }
}

/// Where a tile with its centre at `(x, y)` is drawn. The frame of the
/// selected tile stands out by one pixel on every side.
pub open spec fn place_tile(
    info: TileInfo,
    x: int,
    y: int,
    width: int,
    height: int,
    selected: bool,
) -> TilePlacementView {
    TilePlacementView {
        img_url: info.img_url@,
        center_x: x,
        center_y: y,
        width: grown(width, selected),
        height: grown(height, selected),
        outline: if selected {
            Some((grown(width, selected) + 2, grown(height, selected) + 2))
        } else {
            None
        },
    }
}

/// The measures of a row on screen.
pub struct RowFrame {
    /// The left end of the row.
    pub left_x: int,
    /// The height of the centre line of the tiles.
    pub center_y: int,
    pub element_width: int,
    pub element_height: int,
    /// The gap between two tiles.
    pub w_padding: int,
    /// The gap between two rows.
    pub h_padding: int,
}

impl RowFrame {
    /// The centre of the tile at position `j` of the window.
    pub open spec fn tile_x(self, j: int) -> int {
        self.left_x + self.w_padding / 2 + self.element_width / 2 + j * (self.element_width
            + self.w_padding)
    }

    /// The height of the centre line of the title, above the tiles.
    pub open spec fn text_y(self) -> int {
        self.center_y - self.element_height / 2 - self.h_padding / 2
    }

    /// The measures fit the coordinates of the screen.
    pub open spec fn fits(self) -> bool {
        &&& 0 <= self.element_width <= i32::MAX
        &&& 0 <= self.element_height <= i32::MAX
        &&& 0 <= self.w_padding <= i32::MAX
        &&& 0 <= self.h_padding <= i32::MAX
        &&& i32::MIN <= self.left_x <= i32::MAX
        &&& i32::MIN <= self.center_y <= i32::MAX
        &&& i32::MIN <= self.text_y()
    }

    /// A window of `shown` tiles fits the coordinates of the screen, up to
    /// one step past its last tile.
    pub open spec fn fits_tiles(self, shown: int) -> bool {
        &&& self.tile_x(0) <= i32::MAX
        &&& shown > 0 ==> self.element_width + self.w_padding <= i32::MAX && self.tile_x(shown)
            <= i32::MAX
    }
}

/// The measures of a row as they are handed over for placing it.
pub open spec fn frame_of(
    left_x: i32,
    center_y: i32,
    element_width: u32,
    element_height: u32,
    padding: (u32, u32),
) -> RowFrame {
    RowFrame {
        left_x: left_x as int,
        center_y: center_y as int,
        element_width: element_width as int,
        element_height: element_height as int,
        w_padding: padding.0 as int,
        h_padding: padding.1 as int,
    }
}

/// The position in the window as a plain number.
pub open spec fn position_of(selected: Option<usize>) -> Option<int> {
    match selected {
        Some(j) => Some(j as int),
        None => None,
    }
}

impl RowView {
    /// The number of tiles of the row that are on screen: a row without
    /// tiles shows none, any other fills its window, if need be with the same
    /// tile more than once.
    pub open spec fn on_screen(self) -> nat {
        if self.tiles.len() == 0 {
            0
        } else {
            self.window_size
        }
    }

    /// The tile at position `j` of the window.
    pub open spec fn tile_on_screen(self, j: int) -> TileInfo {
        self.tiles[ring_at(self.window_start as int, j, self.tiles.len() as int)]
    }

    /// Where the row is drawn in `frame`; `selected` is the position in the
    /// window of the selected tile, if it is in this row.
    pub open spec fn place(self, frame: RowFrame, selected: Option<int>) -> RowPlacementView {
        RowPlacementView {
            title: self.title,
            left_x: frame.left_x,
            text_y: frame.text_y(),
            tiles: Seq::new(
                self.on_screen(),
                |j: int|
                    place_tile(
                        self.tile_on_screen(j),
                        frame.tile_x(j),
                        frame.center_y,
                        frame.element_width,
                        frame.element_height,
                        selected == Some(j),
                    ),
            ),
        }
    }
}

/// The gap between two elements on a screen of the given extent.
pub open spec fn padding_of(extent: int) -> int {
    extent / 20
}

/// The size of an element, along the axis on which the screen has the given
/// extent: a [`WINDOW_SIZE`]th of the screen, less the gap.
pub open spec fn element_of(extent: int) -> int {
    extent / (WINDOW_SIZE as int) - padding_of(extent)
}

/// The height of the centre line of the row at position `i` of the window,
/// on a screen of the given height.
pub open spec fn row_center(height: int, i: int) -> int {
    padding_of(height) + element_of(height) / 2 + i * (element_of(height) + padding_of(height))
}

impl LayoutView {
    /// The number of rows on screen: a grid without rows shows none, any
    /// other fills its window, if need be with the same row more than once.
    pub open spec fn on_screen(self) -> nat {
        if self.rows.len() == 0 {
            0
        } else {
            WINDOW_SIZE as nat
        }
    }

    /// The row at position `i` of the window.
    pub open spec fn row_on_screen(self, i: int) -> RowView {
        self.rows[ring_at(self.window_start as int, i, self.rows.len() as int)]
    }

    /// The measures of the row at position `i` of the window.
    pub open spec fn frame(width: int, height: int, i: int) -> RowFrame {
        RowFrame {
            left_x: 0,
            center_y: row_center(height, i),
            element_width: element_of(width),
            element_height: element_of(height),
            w_padding: padding_of(width),
            h_padding: padding_of(height),
        }
    }

    /// Where everything is drawn on a screen of the given size, row by row
    /// from the top.
    pub open spec fn place(self, width: int, height: int) -> Seq<RowPlacementView> {
        Seq::new(
            self.on_screen(),
            |i: int|
                self.row_on_screen(i).place(
                    Self::frame(width, height, i),
                    if i == self.row {
                        Some(self.col as int)
                    } else {
                        None
                    },
                ),
        )
    }

    /// Some row on screen has tiles.
    pub open spec fn shows_tiles(self) -> bool {
        exists|i: int|
            0 <= i < self.on_screen() && (#[trigger] self.row_on_screen(i)).tiles.len() > 0
    }

    /// A screen of this size can be drawn on: the coordinates are kept as
    /// `i32`, and the furthest that is computed is one step past the last
    /// element of the window.
    pub open spec fn fits(self, width: int, height: int) -> bool {
        &&& self.on_screen() > 0 ==> row_center(height, WINDOW_SIZE as int) <= i32::MAX
        &&& self.shows_tiles() ==> Self::frame(width, height, 0).tile_x(WINDOW_SIZE as int)
            <= i32::MAX
    }
}

impl RowPlacement {
    /// The centre of the title, which is drawn from the left end of the row
    /// and has been measured as `text_width` wide.
    pub fn title_center(&self, text_width: u32) -> (center: (i32, i32))
        requires
            self.left_x + text_width / 2 <= i32::MAX,
        ensures
            center.0 == self.left_x + text_width / 2,
            center.1 == self.text_y,
    {
        (self.left_x + (text_width / 2) as i32, self.text_y)
    }
}

/// The views of row placements.
pub open spec fn placement_views(rows: Seq<RowPlacement>) -> Seq<RowPlacementView> {
    rows.map_values(|row: RowPlacement| row@)
}

} // verus!
