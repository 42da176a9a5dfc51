//! A cache of drawable assets that are fetched in the background, with the
//! decisions of the download pipeline that feeds it, the grid of tiles that
//! asks for the assets and the extraction of that grid from a catalog.
//!
//! The render loop never waits: it looks assets up, draws what is there and a
//! placeholder for the rest, and harvests finished downloads once per tick.

pub mod async_resource_manager;
pub mod cache_model;
pub mod channels;
pub mod download_loop;
pub mod in_flight;
pub mod json;
pub mod json_parser;
pub mod placement;
pub mod render_loop;
pub mod scene;
pub mod tiled_layout;
