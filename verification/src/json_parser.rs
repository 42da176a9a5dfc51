//! The catalog: rows of tiles, each tile a title and the URL of its image,
//! and how they are read out of the catalog's documents.
//!
//! The catalog is a main document with a list of containers. A container
//! holds its items itself, or names a set that is kept in a document of its
//! own. Fetching a document is the caller's part.

use crate::json::Json;
use vstd::prelude::*;
use vstd::string::StringExecFns;

verus! {

/// One tile of the catalog.
#[derive(Debug)]
pub struct TileInfo {
    pub title: String,
    pub img_url: String,
}

/// A [`TileInfo`] as plain values.
pub struct TileInfoView {
    pub title: Seq<char>,
    pub img_url: Seq<char>,
}

impl View for TileInfo {
    type V = TileInfoView;

    open spec fn view(&self) -> TileInfoView {
        TileInfoView { title: self.title@, img_url: self.img_url@ }
    }
}

/// One row of the catalog: its title and its tiles, in order.
#[derive(Debug)]
pub struct RowInfo {
    pub title: String,
    pub tiles: Vec<TileInfo>,
}

/// A [`RowInfo`] as plain values.
pub struct RowInfoView {
    pub title: Seq<char>,
    pub tiles: Seq<TileInfoView>,
}

impl View for RowInfo {
    type V = RowInfoView;

    open spec fn view(&self) -> RowInfoView {
        RowInfoView { title: self.title@, tiles: self.tiles@.map_values(|tile: TileInfo| tile@) }
    }
}

/// Where the main document of the catalog is kept.
pub const MAIN_URL: &'static str = "https://cd-static.bamgrid.com/dp-117731241344/home.json";

/// Where the document of the set named `ref_id` is kept.
pub open spec fn set_url(ref_id: Seq<char>) -> Seq<char> {
    "https://cd-static.bamgrid.com/dp-117731241344/sets/"@ + ref_id + ".json"@
}

/// The member `name` of `within` if it is there, `otherwise` if it is not.
pub open spec fn prefer(within: Json, name: Seq<char>, otherwise: Json) -> Json {
    if within.member(name) is Null {
        otherwise
    } else {
        within.member(name)
    }
}

/// The first position from `from` on, below `bound`, at which `at` is
/// missing; `bound` if there is none.
pub open spec fn first_missing(at: spec_fn(int) -> Json, from: int, bound: int) -> int
    decreases bound - from,
{
    if from >= bound || at(from) is Null {
        from
    } else {
        first_missing(at, from + 1, bound)
    }
}

/// The container at `idx` of the main document.
pub open spec fn container_of(main: Json, idx: int) -> Json {
    main.member("data"@).member("StandardCollection"@).member("containers"@).element(idx).member(
        "set"@,
    )
}

/// The number of containers of the main document: those before the first
/// place without one.
pub open spec fn container_count(main: Json) -> nat {
    first_missing(
        |idx: int| container_of(main, idx),
        0,
        main.member("data"@).member("StandardCollection"@).member("containers"@).count() as int,
    ) as nat
}

/// The title of a container; empty where it has none.
pub open spec fn container_title(container: Json) -> Seq<char> {
    match container.member("text"@).member("title"@).member("full"@).member("set"@).member(
        "default"@,
    ).member("content"@).text() {
        Some(title) => title,
        None => Seq::empty(),
    }
}

/// The set that a container names, if it names one.
pub open spec fn container_ref_id(container: Json) -> Option<Seq<char>> {
    container.member("refId"@).text()
}

/// The item at `idx` of a container.
pub open spec fn container_item(container: Json, idx: int) -> Json {
    container.member("items"@).element(idx)
}

/// The number of items of a container: those before the first place without
/// one.
pub open spec fn item_count(container: Json) -> nat {
    first_missing(
        |idx: int| container_item(container, idx),
        0,
        container.member("items"@).count() as int,
    ) as nat
}

/// The title of an item, under the last of the kinds `series`, `program`,
/// `collection` that the item has.
pub open spec fn item_title(item: Json) -> Option<Seq<char>> {
    let full = item.member("text"@).member("title"@).member("full"@);
    prefer(
        full,
        "collection"@,
        prefer(full, "program"@, prefer(full, "series"@, Json::Null)),
    ).member("default"@).member("content"@).text()
}

/// The URL of the image of an item in the wide format, under the last of
/// the kinds `series`, `program`, `collection`, `default` that the item has.
pub open spec fn item_image_url(item: Json) -> Option<Seq<char>> {
    let wide = item.member("image"@).member("tile"@).member("1.78"@);
    prefer(
        wide,
        "default"@,
        prefer(wide, "collection"@, prefer(wide, "program"@, prefer(wide, "series"@, Json::Null))),
    ).member("default"@).member("url"@).text()
}

/// The text, or the empty text where there is none.
pub open spec fn or_empty(text: Option<Seq<char>>) -> Seq<char> {
    match text {
        Some(text) => text,
        None => Seq::empty(),
    }
}

/// The tile that an item stands for.
pub open spec fn tile_of(item: Json) -> TileInfoView {
    TileInfoView { title: or_empty(item_title(item)), img_url: or_empty(item_image_url(item)) }
}

/// The tiles of a container, item by item.
pub open spec fn tiles_of(container: Json) -> Seq<TileInfoView> {
    Seq::new(item_count(container), |idx: int| tile_of(container_item(container, idx)))
}

/// The container that holds the items of `container`: the set in `set`, the
/// document of the set that the container names, under the last of the kinds
/// `CuratedSet`, `TrendingSet`, `PersonalizedCuratedSet` that it has, and the
/// container itself where the document has none of them.
pub open spec fn resolved(container: Json, set: Json) -> Json {
    let data = set.member("data"@);
    prefer(
        data,
        "PersonalizedCuratedSet"@,
        prefer(data, "TrendingSet"@, prefer(data, "CuratedSet"@, container)),
    )
}

/// The row that a container stands for; `set` is the document of the set
/// that it names, if it names one.
pub open spec fn row_of(container: Json, set: Option<Json>) -> RowInfoView {
    RowInfoView {
        title: container_title(container),
        tiles: match set {
            Some(set) => tiles_of(resolved(container, set)),
            None => tiles_of(container),
        },
    }
}

/// The rows of the catalog: one for every container that has tiles, in the
/// order of the main document. `sets[i]` is the document of the set that
/// container `i` names.
pub open spec fn rows_of(main: Json, sets: Seq<Option<Json>>) -> Seq<RowInfoView> {
    Seq::new(container_count(main), |idx: int| row_of(container_of(main, idx), sets[idx])).filter(
        |row: RowInfoView| row.tiles.len() > 0,
    )
}

/// `skipped` lists, in rising order, the positions of the containers of
/// `main` that have no tiles, and so no row.
pub open spec fn lists_containers_without_tiles(
    skipped: Seq<usize>,
    main: Json,
    sets: Seq<Option<Json>>,
) -> bool {
    &&& forall|a: int, b: int| 0 <= a < b < skipped.len() ==> skipped[a] < skipped[b]
    &&& forall|a: int| 0 <= a < skipped.len() ==> (#[trigger] skipped[a]) < container_count(main)
    &&& forall|idx: int|
        0 <= idx < container_count(main) ==> ((#[trigger] row_of(
            container_of(main, idx),
            sets[idx],
        )).tiles.len() == 0 <==> exists|a: int|
            0 <= a < skipped.len() && (#[trigger] skipped[a]) == idx)
}

/// `fetch` may return `doc` for `url`.
pub open spec fn fetched<F: Fn(&str) -> Json>(fetch: F, url: Seq<char>, doc: Json) -> bool {
    exists|raw: &str| raw@ == url && #[trigger] fetch.ensures((raw,), doc)
}

/// `sets` holds, for every container of `main` that names a set, a document
/// that `fetch` may return for that set, and nothing for the others.
pub open spec fn sets_fetched<F: Fn(&str) -> Json>(
    fetch: F,
    main: Json,
    sets: Seq<Option<Json>>,
) -> bool {
    &&& sets.len() == container_count(main)
    &&& forall|idx: int|
        0 <= idx < sets.len() ==> match container_ref_id(container_of(main, idx)) {
            Some(ref_id) => (#[trigger] sets[idx]) is Some && fetched(
                fetch,
                set_url(ref_id),
                sets[idx]->0,
            ),
            None => sets[idx] is None,
        }
}

/// The views of rows.
pub open spec fn row_views(rows: Seq<RowInfo>) -> Seq<RowInfoView> {
    rows.map_values(|row: RowInfo| row@)
}

/// The `member` if it is there, `otherwise` if it is not.
fn or_else<'a>(within: &'a Json, name: &str, otherwise: &'a Json) -> (out: &'a Json)
    ensures
        *out == prefer(*within, name@, *otherwise),
{
    let member = within.get(name);
    if member.is_null() {
        otherwise
    } else {
        member
    }
}

/// Reads the catalog out of its documents.
pub struct JsonParser {
    main: Json,
    without_tiles: Vec<usize>,
}

impl JsonParser {
    /// The main document; `Null` before it has been fetched.
    pub closed spec fn document(&self) -> Json {
        self.main
    }

    /// The positions of the containers that the last reading of the rows
    /// found without tiles.
    pub closed spec fn skipped(&self) -> Seq<usize> {
        self.without_tiles@
    }

    pub fn new() -> (parser: Self)
        ensures
            parser.document() == Json::Null,
            parser.skipped() == Seq::<usize>::empty(),
    {
        JsonParser { main: Json::Null, without_tiles: Vec::new() }
    }

    /// The positions of the containers that the last reading of the rows
    /// found without tiles, in rising order. Such a container has no row.
    pub fn containers_without_tiles(&self) -> (skipped: &Vec<usize>)
        ensures
            skipped@ == self.skipped(),
    {
        &self.without_tiles
    }

    /// Fetches the main document.
    pub fn parse_main_json<F: Fn(&str) -> Json>(&mut self, fetch: &F)
        requires
            forall|url: &str| fetch.requires((url,)),
        ensures
            fetched(*fetch, MAIN_URL@, final(self).document()),
            final(self).skipped() == old(self).skipped(),
    {
        self.main = fetch(MAIN_URL);
    }

    /// Fetches the document of the set named `ref_id`.
    pub fn parse_ref_json<F: Fn(&str) -> Json>(ref_id: &str, fetch: &F) -> (set: Json)
        requires
            forall|url: &str| fetch.requires((url,)),
        ensures
            fetched(*fetch, set_url(ref_id@), set),
    {
        let url = String::from_str("https://cd-static.bamgrid.com/dp-117731241344/sets/").concat(
            ref_id,
        ).concat(".json");
        fetch(url.as_str())
    }

    /// See [`container_of`].
    pub fn get_container(&self, idx: usize) -> (container: &Json)
        ensures
            *container == container_of(self.document(), idx as int),
    {
        self.main.get("data").get("StandardCollection").get("containers").at(idx).get("set")
    }

    /// See [`container_title`].
    pub fn get_container_title(container: &Json) -> (title: String)
        ensures
            title@ == container_title(*container),
    {
        match container.get("text").get("title").get("full").get("set").get("default").get(
            "content",
        ).as_text() {
            Some(title) => title,
            None => String::new(),
        }
    }

    /// See [`container_item`].
    pub fn get_container_item(container: &Json, idx: usize) -> (item: &Json)
        ensures
            *item == container_item(*container, idx as int),
    {
        container.get("items").at(idx)
    }

    /// See [`item_title`].
    pub fn get_item_title(item: &Json) -> (title: Option<String>)
        ensures
            match title {
                Some(title) => item_title(*item) == Some(title@),
                None => item_title(*item) is None,
            },
    {
        let full = item.get("text").get("title").get("full");
        let mut variable = &Json::Null;
        variable = or_else(full, "series", variable);
        variable = or_else(full, "program", variable);
        variable = or_else(full, "collection", variable);
        variable.get("default").get("content").as_text()
    }

    /// See [`item_image_url`].
    pub fn get_item_image_url(item: &Json) -> (url: Option<String>)
        ensures
            match url {
                Some(url) => item_image_url(*item) == Some(url@),
                None => item_image_url(*item) is None,
            },
    {
        let wide = item.get("image").get("tile").get("1.78");
        let mut variable = &Json::Null;
        variable = or_else(wide, "series", variable);
        variable = or_else(wide, "program", variable);
        variable = or_else(wide, "collection", variable);
        variable = or_else(wide, "default", variable);
        variable.get("default").get("url").as_text()
    }

    /// The container that holds the items of `container`, which names the
    /// set kept in the document `set`. See [`resolved`].
    pub fn resolve<'a>(container: &'a Json, set: &'a Json) -> (holder: &'a Json)
        ensures
            *holder == resolved(*container, *set),
    {
        let data = set.get("data");
        let mut holder = container;
        holder = or_else(data, "CuratedSet", holder);
        holder = or_else(data, "TrendingSet", holder);
        holder = or_else(data, "PersonalizedCuratedSet", holder);
        holder
    }

    /// The tiles of a container, item by item up to the first place without
    /// an item. An item without a title, or without an image, gets an empty
    /// one.
    pub fn read_tiles(container: &Json) -> (tiles: Vec<TileInfo>)
        ensures
            tiles@.map_values(|tile: TileInfo| tile@) == tiles_of(*container),
    {
        let ghost at = |idx: int| container_item(*container, idx);
        let ghost bound = container.member("items"@).count() as int;
        let mut tiles: Vec<TileInfo> = Vec::new();
        let mut j: usize = 0;
        while !Self::get_container_item(container, j).is_null()
            invariant
                at == (|idx: int| container_item(*container, idx)),
                bound == container.member("items"@).count(),
                j <= bound,
                first_missing(at, 0, bound) == first_missing(at, j as int, bound),
                tiles.len() == j,
                forall|k: int|
                    0 <= k < j ==> (#[trigger] tiles[k])@ == tile_of(container_item(*container, k)),
            decreases bound - j,
        {
            let item = Self::get_container_item(container, j);
            let title = match Self::get_item_title(item) {
                Some(title) => title,
                None => String::new(),
            };
            let img_url = match Self::get_item_image_url(item) {
                Some(url) => url,
                None => String::new(),
            };
            tiles.push(TileInfo { title, img_url });
            j += 1;
        }
        tiles
    }

    /// Fetches the catalog and reads its rows: one for every container that
    /// has tiles, in the order of the main document. The items of a
    /// container that names a set are read from the document of that set,
    /// which is fetched when the container is reached.
    pub fn parse_all_rows<F: Fn(&str) -> Json>(&mut self, fetch: F) -> (rows: Vec<RowInfo>)
        requires
            forall|url: &str| fetch.requires((url,)),
        ensures
            fetched(fetch, MAIN_URL@, final(self).document()),
            exists|sets: Seq<Option<Json>>|
                {
                    &&& sets_fetched(fetch, final(self).document(), sets)
                    &&& row_views(rows@) == rows_of(final(self).document(), sets)
                    &&& lists_containers_without_tiles(
                        final(self).skipped(),
                        final(self).document(),
                        sets,
                    )
                },
    {
        self.parse_main_json(&fetch);
        let ghost main = self.document();
        let ghost at = |idx: int| container_of(main, idx);
        let ghost bound = main.member("data"@).member("StandardCollection"@).member(
            "containers"@,
        ).count() as int;
        let ghost keep = |row: RowInfoView| row.tiles.len() > 0;
        let ghost mut sets: Seq<Option<Json>> = Seq::empty();
        let ghost mut seen: Seq<RowInfoView> = Seq::empty();
        let mut rows: Vec<RowInfo> = Vec::new();
        let mut skipped: Vec<usize> = Vec::new();
        let mut i: usize = 0;
        while !self.get_container(i).is_null()
            invariant
                forall|url: &str| fetch.requires((url,)),
                forall|a: int, b: int| 0 <= a < b < skipped.len() ==> skipped[a] < skipped[b],
                forall|a: int| 0 <= a < skipped.len() ==> (#[trigger] skipped[a]) < i,
                forall|idx: int|
                    0 <= idx < i ==> ((#[trigger] seen[idx]).tiles.len() == 0 <==> exists|a: int|
                        0 <= a < skipped.len() && (#[trigger] skipped[a]) == idx),
                self.document() == main,
                at == (|idx: int| container_of(main, idx)),
                keep == (|row: RowInfoView| row.tiles.len() > 0),
                bound == main.member("data"@).member("StandardCollection"@).member(
                    "containers"@,
                ).count(),
                i <= bound,
                first_missing(at, 0, bound) == first_missing(at, i as int, bound),
                sets.len() == i,
                seen.len() == i,
                forall|idx: int|
                    0 <= idx < i ==> #[trigger] seen[idx] == row_of(
                        container_of(main, idx),
                        sets[idx],
                    ),
                forall|idx: int|
                    0 <= idx < i ==> match container_ref_id(container_of(main, idx)) {
                        Some(ref_id) => (#[trigger] sets[idx]) is Some && fetched(
                            fetch,
                            set_url(ref_id),
                            sets[idx]->0,
                        ),
                        None => sets[idx] is None,
                    },
                row_views(rows@) == seen.filter(keep),
            decreases bound - i,
        {
            let container = self.get_container(i);
            let title = Self::get_container_title(container);
            let ghost earlier_seen = seen;
            let tiles = match container.get("refId").as_text() {
                Some(ref_id) => {
                    let set = Self::parse_ref_json(ref_id.as_str(), &fetch);
                    proof {
                        sets = sets.push(Some(set));
                    }
                    Self::read_tiles(Self::resolve(container, &set))
                },
                None => {
                    proof {
                        sets = sets.push(None);
                    }
                    Self::read_tiles(container)
                },
            };
            let row = RowInfo { title, tiles };
            proof {
                seen = seen.push(row@);
                earlier_seen.lemma_filter_push(row@, keep);
            }
            let ghost listed = skipped@;
            if !row.tiles.is_empty() {
                rows.push(row);
            } else {
                skipped.push(i);
                assert(skipped[skipped.len() - 1] == i);
            }
            proof {
                assert forall|idx: int| 0 <= idx < i + 1 implies ((#[trigger] seen[idx]).tiles.len()
                    == 0 <==> exists|a: int|
                    0 <= a < skipped.len() && (#[trigger] skipped[a]) == idx) by {
                    if idx < i {
                        assert(seen[idx] == earlier_seen[idx]);
                        if seen[idx].tiles.len() == 0 {
                            let a = choose|a: int|
                                0 <= a < listed.len() && (#[trigger] listed[a]) == idx;
                            assert(skipped[a] == idx);
                        }
                        if exists|a: int| 0 <= a < skipped.len() && (#[trigger] skipped[a]) == idx {
                            let a = choose|a: int|
                                0 <= a < skipped.len() && (#[trigger] skipped[a]) == idx;
                            assert(listed[a] == idx);
                        }
                    }
                }
            }
            i += 1;
        }
        let ghost listed = skipped@;
        self.without_tiles = skipped;
        proof {
            assert(seen =~= Seq::new(
                container_count(main),
                |idx: int| row_of(container_of(main, idx), sets[idx]),
            ));
            assert(row_views(rows@) == rows_of(main, sets));
            assert(container_count(main) == i);
            assert forall|idx: int| 0 <= idx < container_count(main) implies ((#[trigger] row_of(
                container_of(main, idx),
                sets[idx],
            )).tiles.len() == 0 <==> exists|a: int|
                0 <= a < self.skipped().len() && (#[trigger] self.skipped()[a]) == idx) by {
                assert(self.skipped() == listed);
                assert(seen[idx] == row_of(container_of(main, idx), sets[idx]));
                if seen[idx].tiles.len() == 0 {
                    let a = choose|a: int| 0 <= a < listed.len() && (#[trigger] listed[a]) == idx;
                    assert(self.skipped()[a] == idx);
                }
            }
            assert(lists_containers_without_tiles(self.skipped(), main, sets));
            assert(sets_fetched(fetch, main, sets));
        }
        rows
    }
}

} // verus!
