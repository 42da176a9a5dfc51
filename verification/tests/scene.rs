use bytes::Bytes;
use dss_now_playing::async_resource_manager::{
    AsyncResourceManager, DownloadRequest, DownloadResponse,
};
use dss_now_playing::cache_model::PipelineClosed;
use dss_now_playing::json_parser::{RowInfo, TileInfo};
use dss_now_playing::render_loop::{on_input, Input, Key, Reaction};
use dss_now_playing::tiled_layout::{Direction, TiledLayout};
use std::rc::Rc;
use tokio::sync::mpsc;

fn decode(data: &[u8]) -> Option<String> {
    String::from_utf8(data.to_vec()).ok()
}

fn render(text: &str) -> (String, (u32, u32)) {
    (format!("text:{}", text), (10 * text.len() as u32, 20))
}

fn row(title: &str, tiles: usize) -> RowInfo {
    RowInfo {
        title: title.to_string(),
        tiles: (0..tiles)
            .map(|i| TileInfo {
                title: format!("{} {}", title, i),
                img_url: format!("{}/{}", title, i),
            })
            .collect(),
    }
}

fn reply(request: DownloadRequest, data: &str) {
    let response = DownloadResponse { bytes: Bytes::from(data.as_bytes().to_vec()) };
    assert!(request.response_channel.send(Some(response)).is_ok());
}

#[test]
fn first_drawing_asks_for_every_image_on_screen_once() {
    let (tx, mut rx) = mpsc::channel::<DownloadRequest>(64);
    let mut manager = AsyncResourceManager::new(decode, tx, render);
    // Two rows fill the four rows of the window twice over, and the three
    // tiles of a row fill its four places with one tile twice.
    let layout = TiledLayout::new_with_row_infos(vec![row("a", 3), row("b", 3)]);
    let rows = layout.draw(&mut manager, 1280, 720).unwrap();
    assert_eq!(rows.len(), 4);
    for drawn in &rows {
        assert_eq!(drawn.tiles.len(), 4);
        assert!(drawn.tiles.iter().all(|tile| tile.image.is_none()));
    }
    let mut asked = Vec::new();
    while let Ok(request) = rx.try_recv() {
        asked.push(request.url);
    }
    assert_eq!(asked, ["a/0", "a/1", "a/2", "b/0", "b/1", "b/2"]);
    assert_eq!(manager.in_flight_count(), 6);
    // Drawing again asks for nothing.
    assert!(layout.draw(&mut manager, 1280, 720).is_ok());
    assert!(rx.try_recv().is_err());
    assert_eq!(manager.in_flight_count(), 6);
}

#[test]
fn titles_are_rendered_and_centred_from_the_left() {
    let (tx, _rx) = mpsc::channel::<DownloadRequest>(64);
    let mut manager = AsyncResourceManager::new(decode, tx, render);
    let layout = TiledLayout::new_with_row_infos(vec![row("New", 1), row("Trending", 1)]);
    let rows = layout.draw(&mut manager, 1280, 720).unwrap();
    let titles: Vec<&str> = rows.iter().map(|drawn| drawn.title.as_str()).collect();
    assert_eq!(titles, ["text:New", "text:Trending", "text:New", "text:Trending"]);
    let sizes: Vec<(u32, u32)> = rows.iter().map(|drawn| drawn.title_size).collect();
    assert_eq!(sizes, [(30, 20), (80, 20), (30, 20), (80, 20)]);
    let centers: Vec<(i32, i32)> = rows.iter().map(|drawn| drawn.title_center).collect();
    assert_eq!(centers, [(15, 18), (40, 198), (15, 378), (40, 558)]);
    // A title that is on screen twice is rendered once.
    assert!(Rc::ptr_eq(&rows[0].title, &rows[2].title));
    let again = layout.draw(&mut manager, 1280, 720).unwrap();
    assert!(Rc::ptr_eq(&rows[1].title, &again[1].title));
}

#[test]
fn image_shows_from_the_drawing_after_the_poll() {
    let (tx, mut rx) = mpsc::channel::<DownloadRequest>(64);
    let mut manager = AsyncResourceManager::new(decode, tx, render);
    let layout = TiledLayout::new_with_row_infos(vec![row("a", 4)]);
    assert!(layout.draw(&mut manager, 1280, 720).is_ok());
    let first = rx.try_recv().unwrap();
    assert_eq!(first.url, "a/0");
    reply(first, "picture");
    // The reply is there, but no poll has harvested it.
    let rows = layout.draw(&mut manager, 1280, 720).unwrap();
    assert!(rows[0].tiles[0].image.is_none());
    manager.process_pending();
    let rows = layout.draw(&mut manager, 1280, 720).unwrap();
    for drawn in &rows {
        assert_eq!(drawn.tiles[0].image.as_deref(), Some(&"picture".to_string()));
        assert!(drawn.tiles[1].image.is_none());
        assert_eq!(drawn.tiles[0].placement.img_url, "a/0");
    }
    assert!(Rc::ptr_eq(
        rows[0].tiles[0].image.as_ref().unwrap(),
        rows[3].tiles[0].image.as_ref().unwrap()
    ));
    // The selected tile is the first of the first row on screen.
    assert_eq!(rows[0].tiles[0].placement.outline, Some((283, 160)));
    assert_eq!(rows[1].tiles[0].placement.outline, None);
    assert_eq!(manager.in_flight_count(), 3);
}

#[test]
fn drawing_follows_the_selection() {
    let (tx, mut rx) = mpsc::channel::<DownloadRequest>(64);
    let mut manager = AsyncResourceManager::new(decode, tx, render);
    let mut layout = TiledLayout::new_with_row_infos(vec![row("a", 6)]);
    assert!(layout.draw(&mut manager, 1280, 720).is_ok());
    let mut asked = Vec::new();
    while let Ok(request) = rx.try_recv() {
        asked.push(request.url.clone());
        drop(request);
    }
    assert_eq!(asked, ["a/0", "a/1", "a/2", "a/3"]);
    for _ in 0..4 {
        layout.handle_direction(Direction::Right);
    }
    // The tile that came into view is asked for; the others are in flight.
    assert!(layout.draw(&mut manager, 1280, 720).is_ok());
    assert_eq!(rx.try_recv().unwrap().url, "a/4");
    assert!(rx.try_recv().is_err());
}

#[test]
fn full_queue_leaves_tiles_for_a_later_drawing() {
    let (tx, mut rx) = mpsc::channel::<DownloadRequest>(2);
    let mut manager = AsyncResourceManager::new(decode, tx, render);
    let layout = TiledLayout::new_with_row_infos(vec![row("a", 4)]);
    assert!(layout.draw(&mut manager, 1280, 720).is_ok());
    assert_eq!(manager.in_flight_count(), 2);
    assert!(manager.is_in_flight("a/0") && manager.is_in_flight("a/1"));
    assert_eq!(rx.try_recv().unwrap().url, "a/0");
    assert!(layout.draw(&mut manager, 1280, 720).is_ok());
    assert_eq!(manager.in_flight_count(), 3);
    assert!(manager.is_in_flight("a/2"));
}

#[test]
fn drawing_stops_when_the_pipeline_is_gone() {
    let (tx, rx) = mpsc::channel::<DownloadRequest>(64);
    drop(rx);
    let mut manager = AsyncResourceManager::new(decode, tx, render);
    let layout = TiledLayout::new_with_row_infos(vec![row("a", 4)]);
    assert_eq!(layout.draw(&mut manager, 1280, 720).err(), Some(PipelineClosed));
    assert_eq!(manager.in_flight_count(), 0);
    // A grid with nothing to look up draws all the same.
    let bare = TiledLayout::new_with_row_infos(vec![row("a", 0)]);
    let rows = bare.draw(&mut manager, 1280, 720).unwrap();
    assert_eq!(rows.len(), 4);
    assert!(rows[0].tiles.is_empty());
    let none = TiledLayout::new_with_row_infos(Vec::new());
    assert!(none.draw(&mut manager, 1280, 720).unwrap().is_empty());
}

#[test]
fn keys_and_their_reactions() {
    assert_eq!(on_input(Input::Quit), Reaction::Exit);
    assert_eq!(on_input(Input::KeyDown(Key::Escape)), Reaction::Exit);
    assert_eq!(on_input(Input::KeyDown(Key::Left)), Reaction::Step(Direction::Left));
    assert_eq!(on_input(Input::KeyDown(Key::Right)), Reaction::Step(Direction::Right));
    assert_eq!(on_input(Input::KeyDown(Key::Up)), Reaction::Step(Direction::Up));
    assert_eq!(on_input(Input::KeyDown(Key::Down)), Reaction::Step(Direction::Down));
    assert_eq!(on_input(Input::KeyDown(Key::Other)), Reaction::Ignore);
    assert_eq!(on_input(Input::Other), Reaction::Ignore);
}
