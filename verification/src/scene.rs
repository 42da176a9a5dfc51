//! The grid as it is drawn: every title rendered, every tile with its image
//! if the cache has it.

use crate::async_resource_manager::AsyncResourceManager;
use crate::cache_model::{CacheState, PipelineClosed};
use crate::placement::{RowPlacement, RowPlacementView, TilePlacement, TilePlacementView};
use std::rc::Rc;
use vstd::prelude::*;

verus! {

/// A tile as it is drawn: where, and with which image. A tile whose image
/// the cache does not have is drawn as a plain rectangle.
pub struct DrawnTile<A> {
    pub placement: TilePlacement,
    pub image: Option<Rc<A>>,
}

/// A row as it is drawn: the rendered title with its centre and its size,
/// and the tiles from left to right.
pub struct DrawnRow<A> {
    pub title: Rc<A>,
    pub title_center: (i32, i32),
    pub title_size: (u32, u32),
    pub tiles: Vec<DrawnTile<A>>,
}

/// The tile is drawn where `placement` says, with the image that `cache`
/// has for it.
pub open spec fn tile_shows<A>(
    tile: DrawnTile<A>,
    placement: TilePlacementView,
    cache: CacheState<A>,
) -> bool {
    &&& tile.placement@ == placement
    &&& tile.image == cache.held(placement.img_url)
}

/// The row is drawn where `placement` says: every tile with the image that
/// the cache had for it at the start, the title as the cache holds it at the
/// end, from the left end of the row.
pub open spec fn row_shows<A>(
    row: DrawnRow<A>,
    placement: RowPlacementView,
    start: CacheState<A>,
    end: CacheState<A>,
) -> bool {
    &&& end.text.contains_key(placement.title)
    &&& (row.title, row.title_size) == end.text[placement.title]
    &&& row.title_center.0 == placement.left_x + row.title_size.0 / 2
    &&& row.title_center.1 == placement.text_y
    &&& row.tiles.len() == placement.tiles.len()
    &&& forall|j: int|
        0 <= j < row.tiles.len() ==> tile_shows(#[trigger] row.tiles[j], placement.tiles[j], start)
}

/// The URLs of the images of the tiles of `row`.
pub open spec fn urls_of(row: RowPlacementView) -> Set<Seq<char>> {
    Set::new(
        |url: Seq<char>|
            exists|j: int| 0 <= j < row.tiles.len() && (#[trigger] row.tiles[j]).img_url == url,
    )
}

/// The URLs of the images of the tiles in `rows`.
pub open spec fn urls_in(rows: Seq<RowPlacementView>) -> Set<Seq<char>> {
    Set::new(
        |url: Seq<char>|
            exists|i: int| 0 <= i < rows.len() && urls_of(#[trigger] rows[i]).contains(url),
    )
}

/// The titles of `rows`.
pub open spec fn titles_in(rows: Seq<RowPlacementView>) -> Set<Seq<char>> {
    Set::new(
        |title: Seq<char>|
            exists|i: int| 0 <= i < rows.len() && (#[trigger] rows[i]).title == title,
    )
}

/// Looks up the image of one tile. Stops at a lookup that finds the
/// pipeline shut down.
fn draw_tile<A, D: Fn(&[u8]) -> Option<A>, R: Fn(&str) -> (A, (u32, u32))>(
    texture_manager: &mut AsyncResourceManager<A, D, R>,
    placement: TilePlacement,
) -> (out: Result<DrawnTile<A>, PipelineClosed>)
    requires
        old(texture_manager).wf(),
    ensures
        final(texture_manager).wf(),
        final(texture_manager).same_backend(old(texture_manager)),
        old(texture_manager)@.leads_to(
            final(texture_manager)@,
            set![placement@.img_url],
            Set::empty(),
        ),
        final(texture_manager)@.text == old(texture_manager)@.text,
        old(texture_manager).handles() == final(texture_manager).handles().restrict(
            old(texture_manager)@.in_flight,
        ),
        match out {
            Ok(tile) => tile_shows(tile, placement@, old(texture_manager)@),
            Err(_) => old(texture_manager)@.unknown(placement@.img_url),
        },
{
    match texture_manager.get_image_from_url(placement.img_url.as_str()) {
        Ok(image) => Ok(DrawnTile { placement, image }),
        Err(closed) => Err(closed),
    }
}

/// Asks for the title of one row and looks up the images of its tiles, from
/// left to right. Stops at a lookup that finds the pipeline shut down.
pub(crate) fn draw_row<A, D: Fn(&[u8]) -> Option<A>, R: Fn(&str) -> (A, (u32, u32))>(
    texture_manager: &mut AsyncResourceManager<A, D, R>,
    row: RowPlacement,
) -> (out: Result<DrawnRow<A>, PipelineClosed>)
    requires
        old(texture_manager).wf(),
        row.left_x <= 0,
    ensures
        final(texture_manager).wf(),
        final(texture_manager).same_backend(old(texture_manager)),
        old(texture_manager)@.leads_to(final(texture_manager)@, urls_of(row@), set![row@.title]),
        old(texture_manager).rendered_since(old(texture_manager)@, final(texture_manager)@),
        old(texture_manager).handles() == final(texture_manager).handles().restrict(
            old(texture_manager)@.in_flight,
        ),
        match out {
            Ok(drawn) => row_shows(drawn, row@, old(texture_manager)@, final(texture_manager)@),
            Err(_) => exists|url: Seq<char>|
                urls_of(row@).contains(url) && old(texture_manager)@.unknown(url),
        },
{
    let ghost placement = row@;
    let ghost start = texture_manager@;
    proof {
        texture_manager.lemma_wf();
        assert(texture_manager.handles() =~= texture_manager.handles().restrict(start.in_flight));
    }
    let (title, title_size) = texture_manager.get_text_texture_and_size(row.title.as_str());
    let title_center = row.title_center(title_size.0);
    let ghost held = texture_manager@.text[placement.title];
    let RowPlacement { title: _, left_x: _, text_y: _, tiles: placements } = row;
    let ghost all = placements@;
    let mut tiles: Vec<DrawnTile<A>> = Vec::new();
    for tile in it: placements
        invariant
            it.seq() == all,
            placement == row@,
            all.map_values(|tile: TilePlacement| tile@) == placement.tiles,
            texture_manager.wf(),
            texture_manager.same_backend(old(texture_manager)),
            start == old(texture_manager)@,
            start.leads_to(texture_manager@, urls_of(placement), set![placement.title]),
            old(texture_manager).rendered_since(start, texture_manager@),
            old(texture_manager).handles() == texture_manager.handles().restrict(start.in_flight),
            texture_manager@.text.contains_key(placement.title),
            texture_manager@.text[placement.title] == held,
            tiles.len() == it.index(),
            forall|j: int|
                0 <= j < tiles.len() ==> tile_shows(#[trigger] tiles[j], placement.tiles[j], start),
    {
        let ghost before = *texture_manager;
        assert(urls_of(placement).contains(placement.tiles[tiles.len() as int].img_url));
        let drawn = draw_tile(texture_manager, tile);
        proof {
            before.lemma_wf();
            assert(old(texture_manager).handles() =~= texture_manager.handles().restrict(
                start.in_flight,
            ));
        }
        match drawn {
            Ok(drawn) => {
                tiles.push(drawn);
            },
            Err(closed) => {
                return Err(closed);
            },
        }
    }
    Ok(DrawnRow { title, title_center, title_size, tiles })
}

} // verus!
