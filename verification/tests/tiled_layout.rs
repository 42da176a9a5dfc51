use dss_now_playing::json_parser::{RowInfo, TileInfo};
use dss_now_playing::placement::RowPlacement;
use dss_now_playing::tiled_layout::{Direction, Tile, TileRow, TiledLayout, WINDOW_SIZE};

fn row(title: &str, tiles: usize) -> RowInfo {
    RowInfo {
        title: title.to_string(),
        tiles: (0..tiles)
            .map(|i| TileInfo {
                title: format!("{} {}", title, i),
                img_url: format!("{}/{}", title, i),
            })
            .collect(),
    }
}

fn urls(placement: &RowPlacement) -> Vec<String> {
    placement.tiles.iter().map(|tile| tile.img_url.clone()).collect()
}

fn titles(rows: &[RowPlacement]) -> Vec<String> {
    rows.iter().map(|row| row.title.clone()).collect()
}

/// The position on screen, row and column, of every tile with a frame.
fn selected_cells(rows: &[RowPlacement]) -> Vec<(usize, usize)> {
    let mut cells = Vec::new();
    for (i, row) in rows.iter().enumerate() {
        for (j, tile) in row.tiles.iter().enumerate() {
            if tile.outline.is_some() {
                cells.push((i, j));
            }
        }
    }
    cells
}

#[test]
fn placements_on_a_1280_by_720_screen() {
    let layout = TiledLayout::new_with_row_infos(vec![
        row("a", 6),
        row("b", 6),
        row("c", 6),
        row("d", 6),
        row("e", 6),
    ]);
    let rows = layout.place(1280, 720);
    assert_eq!(rows.len(), WINDOW_SIZE);
    assert_eq!(titles(&rows), ["a", "b", "c", "d"]);
    let center_ys: Vec<i32> = rows.iter().map(|row| row.tiles[0].center_y).collect();
    assert_eq!(center_ys, [108, 288, 468, 648]);
    let text_ys: Vec<i32> = rows.iter().map(|row| row.text_y).collect();
    assert_eq!(text_ys, [18, 198, 378, 558]);
    for row in &rows {
        assert_eq!(row.left_x, 0);
        assert_eq!(row.tiles.len(), WINDOW_SIZE);
        let center_xs: Vec<i32> = row.tiles.iter().map(|tile| tile.center_x).collect();
        assert_eq!(center_xs, [160, 480, 800, 1120]);
        for tile in &row.tiles {
            assert_eq!(tile.center_y, row.tiles[0].center_y);
        }
    }
    assert_eq!(urls(&rows[1]), ["b/0", "b/1", "b/2", "b/3"]);
    // The selected tile is a tenth larger and framed, the others are not.
    assert_eq!(selected_cells(&rows), [(0, 0)]);
    let selected = &rows[0].tiles[0];
    assert_eq!((selected.width, selected.height), (281, 158));
    assert_eq!(selected.outline, Some((283, 160)));
    let plain = &rows[0].tiles[1];
    assert_eq!((plain.width, plain.height), (256, 144));
    assert_eq!(plain.outline, None);
}

#[test]
fn selection_moves_inside_the_window() {
    let mut layout = TiledLayout::new_with_row_infos(vec![
        row("a", 6),
        row("b", 6),
        row("c", 6),
        row("d", 6),
        row("e", 6),
    ]);
    layout.handle_direction(Direction::Right);
    layout.handle_direction(Direction::Down);
    layout.handle_direction(Direction::Down);
    assert_eq!(selected_cells(&layout.place(1280, 720)), [(2, 1)]);
    layout.handle_direction(Direction::Left);
    layout.handle_direction(Direction::Up);
    let rows = layout.place(1280, 720);
    assert_eq!(selected_cells(&rows), [(1, 0)]);
    assert_eq!(titles(&rows), ["a", "b", "c", "d"]);
    assert_eq!(urls(&rows[1]), ["b/0", "b/1", "b/2", "b/3"]);
}

#[test]
fn right_edge_turns_the_selected_row() {
    let mut layout = TiledLayout::new_with_row_infos(vec![row("a", 6), row("b", 6), row("c", 6)]);
    layout.handle_direction(Direction::Down);
    for _ in 0..3 {
        layout.handle_direction(Direction::Right);
    }
    let rows = layout.place(1280, 720);
    assert_eq!(selected_cells(&rows), [(1, 3)]);
    assert_eq!(urls(&rows[1]), ["b/0", "b/1", "b/2", "b/3"]);
    layout.handle_direction(Direction::Right);
    let rows = layout.place(1280, 720);
    assert_eq!(selected_cells(&rows), [(1, 3)]);
    assert_eq!(urls(&rows[1]), ["b/1", "b/2", "b/3", "b/4"]);
    assert_eq!(urls(&rows[0]), ["a/0", "a/1", "a/2", "a/3"]);
    for _ in 0..5 {
        layout.handle_direction(Direction::Right);
    }
    // Six steps at the edge of a row of six tiles: once round.
    assert_eq!(urls(&layout.place(1280, 720)[1]), ["b/0", "b/1", "b/2", "b/3"]);
}

#[test]
fn left_edge_turns_the_selected_row_backward() {
    let mut layout = TiledLayout::new_with_row_infos(vec![row("a", 6), row("b", 6)]);
    layout.handle_direction(Direction::Left);
    let rows = layout.place(1280, 720);
    // The frame goes by the place on screen: the row is shown a second time
    // further down, without it.
    assert_eq!(selected_cells(&rows), [(0, 0)]);
    assert_eq!(urls(&rows[0]), ["a/5", "a/0", "a/1", "a/2"]);
    assert_eq!(urls(&rows[1]), ["b/0", "b/1", "b/2", "b/3"]);
    // With two rows the window shows each of them twice.
    assert_eq!(titles(&rows), ["a", "b", "a", "b"]);
    assert_eq!(urls(&rows[2]), ["a/5", "a/0", "a/1", "a/2"]);
    layout.handle_direction(Direction::Left);
    assert_eq!(urls(&layout.place(1280, 720)[0]), ["a/4", "a/5", "a/0", "a/1"]);
    layout.handle_direction(Direction::Right);
    layout.handle_direction(Direction::Left);
    layout.handle_direction(Direction::Left);
    assert_eq!(urls(&layout.place(1280, 720)[0]), ["a/3", "a/4", "a/5", "a/0"]);
}

#[test]
fn bottom_and_top_edge_turn_the_rows() {
    let mut layout = TiledLayout::new_with_row_infos(vec![
        row("a", 4),
        row("b", 4),
        row("c", 4),
        row("d", 4),
        row("e", 4),
    ]);
    for _ in 0..3 {
        layout.handle_direction(Direction::Down);
    }
    assert_eq!(titles(&layout.place(1280, 720)), ["a", "b", "c", "d"]);
    assert_eq!(selected_cells(&layout.place(1280, 720)), [(3, 0)]);
    layout.handle_direction(Direction::Down);
    assert_eq!(titles(&layout.place(1280, 720)), ["b", "c", "d", "e"]);
    layout.handle_direction(Direction::Down);
    assert_eq!(titles(&layout.place(1280, 720)), ["c", "d", "e", "a"]);
    assert_eq!(selected_cells(&layout.place(1280, 720)), [(3, 0)]);
    for _ in 0..3 {
        layout.handle_direction(Direction::Up);
    }
    assert_eq!(titles(&layout.place(1280, 720)), ["c", "d", "e", "a"]);
    assert_eq!(selected_cells(&layout.place(1280, 720)), [(0, 0)]);
    for _ in 0..3 {
        layout.handle_direction(Direction::Up);
    }
    assert_eq!(titles(&layout.place(1280, 720)), ["e", "a", "b", "c"]);
    // The step over the edge selects the row that came into view.
    layout.handle_direction(Direction::Right);
    for _ in 0..3 {
        layout.handle_direction(Direction::Right);
    }
    let rows = layout.place(1280, 720);
    assert_eq!(urls(&rows[0]), ["e/1", "e/2", "e/3", "e/0"]);
    assert_eq!(urls(&rows[1]), ["a/0", "a/1", "a/2", "a/3"]);
}

#[test]
fn short_row_fills_its_window_by_repeating() {
    let mut layout = TiledLayout::new_with_row_infos(vec![row("a", 3), row("b", 1)]);
    let rows = layout.place(1280, 720);
    assert_eq!(urls(&rows[0]), ["a/0", "a/1", "a/2", "a/0"]);
    assert_eq!(urls(&rows[1]), ["b/0", "b/0", "b/0", "b/0"]);
    layout.handle_direction(Direction::Down);
    layout.handle_direction(Direction::Left);
    assert_eq!(urls(&layout.place(1280, 720)[1]), ["b/0", "b/0", "b/0", "b/0"]);
    layout.handle_direction(Direction::Up);
    layout.handle_direction(Direction::Left);
    assert_eq!(urls(&layout.place(1280, 720)[0]), ["a/2", "a/0", "a/1", "a/2"]);
}

#[test]
fn row_without_tiles_shows_its_title_only() {
    let mut layout = TiledLayout::new_with_row_infos(vec![row("a", 0), row("b", 2)]);
    let rows = layout.place(1280, 720);
    assert_eq!(titles(&rows), ["a", "b", "a", "b"]);
    assert!(rows[0].tiles.is_empty());
    assert_eq!(rows[0].text_y, 18);
    assert_eq!(urls(&rows[1]), ["b/0", "b/1", "b/0", "b/1"]);
    assert!(selected_cells(&rows).is_empty());
    // Turning a row without tiles changes nothing.
    layout.handle_direction(Direction::Left);
    for _ in 0..4 {
        layout.handle_direction(Direction::Right);
    }
    let rows = layout.place(1280, 720);
    assert!(rows[0].tiles.is_empty());
    assert_eq!(urls(&rows[1]), ["b/0", "b/1", "b/0", "b/1"]);
}

#[test]
fn grid_without_rows_shows_nothing() {
    let mut layout = TiledLayout::new_with_row_infos(Vec::new());
    assert!(layout.place(1280, 720).is_empty());
    assert!(layout.place(u32::MAX, u32::MAX).is_empty());
    // Down needs no row: the selection moves, and at the edge the empty
    // ring of rows turns in place.
    for _ in 0..6 {
        layout.handle_direction(Direction::Down);
    }
    layout.handle_direction(Direction::Right);
    layout.handle_direction(Direction::Left);
    layout.handle_direction(Direction::Up);
    assert!(layout.place(1280, 720).is_empty());
}

#[test]
fn small_and_odd_screens() {
    let layout = TiledLayout::new_with_row_infos(vec![row("a", 4)]);
    let rows = layout.place(0, 0);
    assert_eq!(rows.len(), 4);
    for (i, row) in rows.iter().enumerate() {
        assert_eq!(row.text_y, 0);
        for (j, tile) in row.tiles.iter().enumerate() {
            assert_eq!((tile.center_x, tile.center_y), (0, 0));
            if (i, j) == (0, 0) {
                assert_eq!((tile.width, tile.height), (0, 0));
                assert_eq!(tile.outline, Some((2, 2)));
            } else {
                assert_eq!(tile.outline, None);
            }
        }
    }
    // 1023 / 20 = 51, 1023 / 4 - 51 = 204; 767 / 20 = 38, 767 / 4 - 38 = 153.
    let rows = layout.place(1023, 767);
    let center_xs: Vec<i32> = rows[1].tiles.iter().map(|tile| tile.center_x).collect();
    assert_eq!(center_xs, [127, 382, 637, 892]);
    let center_ys: Vec<i32> = rows.iter().map(|row| row.tiles[0].center_y).collect();
    assert_eq!(center_ys, [114, 305, 496, 687]);
    let text_ys: Vec<i32> = rows.iter().map(|row| row.text_y).collect();
    assert_eq!(text_ys, [19, 210, 401, 592]);
    assert_eq!((rows[0].tiles[0].width, rows[0].tiles[0].height), (224, 168));
    assert_eq!(rows[0].tiles[0].outline, Some((226, 170)));
    assert_eq!((rows[1].tiles[0].width, rows[1].tiles[0].height), (204, 153));
}

#[test]
fn single_tile_is_placed_at_its_centre() {
    let tile = Tile::new(TileInfo { title: "t".to_string(), img_url: "u".to_string() });
    let plain = tile.place((10, -20), 100, 55, false);
    assert_eq!(plain.img_url, "u");
    assert_eq!((plain.center_x, plain.center_y), (10, -20));
    assert_eq!((plain.width, plain.height), (100, 55));
    assert_eq!(plain.outline, None);
    let selected = tile.place((10, -20), 100, 55, true);
    assert_eq!((selected.center_x, selected.center_y), (10, -20));
    assert_eq!((selected.width, selected.height), (110, 60));
    assert_eq!(selected.outline, Some((112, 62)));
    // Less than ten wide: a tenth more is nothing more.
    let small = tile.place((0, 0), 9, 19, true);
    assert_eq!((small.width, small.height), (9, 20));
    assert_eq!(small.outline, Some((11, 22)));
}

#[test]
fn single_row_turns_and_is_placed() {
    let mut tiles = TileRow::new_with_row_info(3, row("r", 5));
    assert_eq!(tiles.tile_count(), 5);
    let placed = tiles.place(-100, 50, 20, 10, (6, 4), Some(2));
    assert_eq!(placed.title, "r");
    assert_eq!((placed.left_x, placed.text_y), (-100, 43));
    assert_eq!(urls(&placed), ["r/0", "r/1", "r/2"]);
    let center_xs: Vec<i32> = placed.tiles.iter().map(|tile| tile.center_x).collect();
    assert_eq!(center_xs, [-87, -61, -35]);
    let outlines: Vec<Option<(u32, u32)>> = placed.tiles.iter().map(|t| t.outline).collect();
    assert_eq!(outlines, [None, None, Some((24, 13))]);
    tiles.rotate(false);
    assert_eq!(urls(&tiles.place(0, 0, 20, 10, (6, 4), None)), ["r/4", "r/0", "r/1"]);
    tiles.rotate(true);
    tiles.rotate(true);
    assert_eq!(urls(&tiles.place(0, 0, 20, 10, (6, 4), None)), ["r/1", "r/2", "r/3"]);
    for _ in 0..4 {
        tiles.rotate(true);
    }
    assert_eq!(urls(&tiles.place(0, 0, 20, 10, (6, 4), None)), ["r/0", "r/1", "r/2"]);
    // A selection past the window frames nothing.
    let unframed = tiles.place(0, 0, 20, 10, (6, 4), Some(3));
    assert!(unframed.tiles.iter().all(|tile| tile.outline.is_none()));
    let mut empty = TileRow::new_with_row_info(4, row("e", 0));
    empty.rotate(true);
    empty.rotate(false);
    assert_eq!(empty.tile_count(), 0);
    assert!(empty.place(0, 0, 20, 10, (6, 4), Some(0)).tiles.is_empty());
}

#[test]
fn layout_tells_which_steps_and_screens_it_takes() {
    let mut none = TiledLayout::new_with_row_infos(Vec::new());
    assert!(none.accepts(Direction::Down));
    assert!(!none.accepts(Direction::Up));
    assert!(!none.accepts(Direction::Left));
    assert!(none.accepts(Direction::Right));
    none.handle_direction(Direction::Down);
    none.handle_direction(Direction::Right);
    assert!(none.accepts(Direction::Up));
    assert!(none.accepts(Direction::Left));
    for _ in 0..2 {
        none.handle_direction(Direction::Right);
    }
    assert!(!none.accepts(Direction::Right));
    assert!(none.fits(u32::MAX, u32::MAX));
    let some = TiledLayout::new_with_row_infos(vec![row("a", 1)]);
    for direction in [Direction::Up, Direction::Down, Direction::Left, Direction::Right] {
        assert!(some.accepts(direction));
    }
    assert!(some.fits(1280, 720));
    assert!(some.fits(0, 0));
    // One step past the last row lies at 23/20 of the height, one step past
    // the last tile at 9/8 of the width.
    assert!(some.fits(1_908_000_000, 1_867_000_000));
    assert!(!some.fits(1280, 1_868_000_000));
    assert!(!some.fits(1_909_000_000, 720));
    assert!(!some.fits(u32::MAX, u32::MAX));
    // A grid of rows without tiles places nothing across, so any width does.
    let bare = TiledLayout::new_with_row_infos(vec![row("a", 0), row("b", 0)]);
    assert!(bare.fits(u32::MAX, 720));
    assert!(!bare.fits(720, u32::MAX));
    assert_eq!(bare.place(u32::MAX, 720).len(), 4);
}
