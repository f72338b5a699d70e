//! Pico-8 maps: 128 columns of sprite indices, read and written cell by cell,
//! and the tiles a map region shows.
use vstd::prelude::*;

use crate::plan::{add_script_functions, runs_after, script_steps, AppPlan, Schedule, Setup};

verus! {

/// The number of columns of a Pico-8 map.
pub const MAP_COLUMNS: u32 = 128;

/// A Pico-8 map: the sprite index of each cell, row after row.
#[derive(Debug, Clone)]
pub struct P8Map {
    pub entries: Vec<u8>,
}

/// What can go wrong when reading or writing a map.
#[derive(Debug, Clone, Copy, PartialEq, Eq, Structural)]
pub enum MapError {
    /// No cell at this index.
    NoSuchIndex(usize),
    /// No map entry to write.
    NoSuchEntry,
}

/// The index of cell `(x, y)`.
pub open spec fn cell_index(x: int, y: int) -> int {
    x + y * 128
}

impl P8Map {
    /// The sprite index at cell `(x, y)`.
    pub fn mget(&self, x: u32, y: u32) -> (r: Result<usize, MapError>)
        requires
            cell_index(x as int, y as int) <= u32::MAX,
        ensures
            cell_index(x as int, y as int) < self.entries@.len() ==> r == Ok::<usize, MapError>(
                self.entries@[cell_index(x as int, y as int)] as usize,
            ),
            cell_index(x as int, y as int) >= self.entries@.len() ==> r == Err::<usize, MapError>(
                MapError::NoSuchIndex(cell_index(x as int, y as int) as usize),
            ),
    {
        let i = (x + y * MAP_COLUMNS) as usize;
        if i < self.entries.len() {
            Ok(self.entries[i] as usize)
        } else {
            Err(MapError::NoSuchIndex(i))
        }
    }

    /// Writes the sprite index at cell `(x, y)` (keeping its low byte).
    pub fn mset(&mut self, x: u32, y: u32, sprite_index: usize) -> (r: Result<(), MapError>)
        requires
            cell_index(x as int, y as int) <= u32::MAX,
        ensures
            cell_index(x as int, y as int) < old(self).entries@.len() ==> r is Ok
                && final(self).entries@ == old(self).entries@.update(
                cell_index(x as int, y as int),
                (sprite_index % 256) as u8,
            ),
            cell_index(x as int, y as int) >= old(self).entries@.len() ==> r == Err::<
                (),
                MapError,
            >(MapError::NoSuchEntry) && final(self).entries@ == old(self).entries@,
    {
        let i = (x + y * MAP_COLUMNS) as usize;
        if i < self.entries.len() {
            let v = (sprite_index % 256) as u8;
            self.entries.set(i, v);
            Ok(())
        } else {
            Err(MapError::NoSuchEntry)
        }
    }
}

/// Writing a cell and reading it back gives the low byte of what was written.
pub proof fn lemma_mget_after_mset(before: Seq<u8>, x: u32, y: u32, v: usize)
    requires
        0 <= cell_index(x as int, y as int) < before.len(),
    ensures
        before.update(cell_index(x as int, y as int), (v % 256) as u8)[cell_index(
            x as int,
            y as int,
        )] as usize == v % 256,
{
}

/// The texture index of map cell `(map_x + x, map_y + y)`: 0 when there is no
/// such cell, or when a mask is given and the sprite's flags do not contain it
/// (a sprite without flags passes).
pub open spec fn spec_tile_index(
    entries: Seq<u8>,
    flags: Seq<u8>,
    map_x: int,
    map_y: int,
    x: int,
    y: int,
    mask: Option<u8>,
) -> u8 {
    let i = map_x + x + (map_y + y) * 128;
    if 0 <= i < entries.len() {
        let index = entries[i];
        match mask {
            Some(m) => if (index as int) < flags.len() && flags[index as int] & m != m {
                0
            } else {
                index
            },
            None => index,
        }
    } else {
        0
    }
}

/// A tile of a map region: its position in the tile grid (row 0 at the bottom)
/// and its texture index.
#[derive(Debug, Clone, Copy, PartialEq, Eq, Structural)]
pub struct MapTile {
    pub x: u32,
    pub y: u32,
    pub texture_index: u8,
}

/// The texture index of one cell of a map region.
pub fn tile_index(entries: &[u8], flags: &[u8], map_x: u32, map_y: u32, x: u32, y: u32, mask: Option<
    u8,
>) -> (r: u8)
    requires
        map_x + x + (map_y + y) * 128 <= u32::MAX,
    ensures
        r == spec_tile_index(entries@, flags@, map_x as int, map_y as int, x as int, y as int, mask),
{
    let i = (map_x + x + (map_y + y) * MAP_COLUMNS) as usize;
    if i < entries.len() {
        let index = entries[i];
        match mask {
            Some(m) => {
                if (index as usize) < flags.len() && flags[index as usize] & m != m {
                    0
                } else {
                    index
                }
            },
            None => index,
        }
    } else {
        0
    }
}

/// The tiles that a `width` by `height` region of the map starting at
/// `(map_x, map_y)` shows: every cell with a non-zero texture index, column by
/// column, its row flipped so that the region's top row is the grid's top row.
pub open spec fn spec_map_tiles(
    entries: Seq<u8>,
    flags: Seq<u8>,
    map_x: int,
    map_y: int,
    width: int,
    height: int,
    mask: Option<u8>,
    count: int,
) -> Seq<MapTile>
    decreases count,
{
    if count <= 0 || height <= 0 {
        seq![]
    } else {
        let prev = spec_map_tiles(entries, flags, map_x, map_y, width, height, mask, count - 1);
        let x = (count - 1) / height;
        let y = (count - 1) % height;
        let t = spec_tile_index(entries, flags, map_x, map_y, x, y, mask);
        if t != 0 {
            prev.push(MapTile { x: x as u32, y: (height - y - 1) as u32, texture_index: t })
        } else {
            prev
        }
    }
}

/// Every tile of a map region lies in the region's grid and shows the cell it
/// stands for: tile `t` is the cell at column `t.x` and row `height - 1 - t.y`
/// of the region (rows counted from its top), and that cell is not empty.
pub proof fn lemma_map_tiles_show_their_cells(
    entries: Seq<u8>,
    flags: Seq<u8>,
    map_x: int,
    map_y: int,
    width: int,
    height: int,
    mask: Option<u8>,
    count: int,
)
    requires
        0 <= count <= width * height,
        0 <= width <= u32::MAX,
        0 <= height <= u32::MAX,
    ensures
        forall|i: int|
            0 <= i < spec_map_tiles(entries, flags, map_x, map_y, width, height, mask, count).len() ==> {
                let t = #[trigger] spec_map_tiles(entries, flags, map_x, map_y, width, height, mask, count)[i];
                &&& t.x < width
                &&& t.y < height
                &&& t.texture_index != 0
                &&& t.texture_index == spec_tile_index(
                    entries,
                    flags,
                    map_x,
                    map_y,
                    t.x as int,
                    height - 1 - t.y,
                    mask,
                )
            },
    decreases count,
{
    if count > 0 && height > 0 {
        lemma_map_tiles_show_their_cells(entries, flags, map_x, map_y, width, height, mask, count - 1);
        let x = (count - 1) / height;
        let y = (count - 1) % height;
        assert(x < width) by (nonlinear_arith)
            requires 0 <= count - 1 < width * height, height > 0, x == (count - 1) / height;
        assert(0 <= y < height);
        assert(0 <= x);
        let prev = spec_map_tiles(entries, flags, map_x, map_y, width, height, mask, count - 1);
        let t = spec_tile_index(entries, flags, map_x, map_y, x, y, mask);
        let r = spec_map_tiles(entries, flags, map_x, map_y, width, height, mask, count);
        if t != 0 {
            let tile = MapTile { x: x as u32, y: (height - y - 1) as u32, texture_index: t };
            assert(r == prev.push(tile));
            assert(tile.x as int == x);
            assert(tile.y as int == height - y - 1);
            assert forall|i: int| 0 <= i < r.len() implies {
                let u = #[trigger] r[i];
                &&& u.x < width
                &&& u.y < height
                &&& u.texture_index != 0
                &&& u.texture_index == spec_tile_index(entries, flags, map_x, map_y, u.x as int, height - 1 - u.y, mask)
            } by {
                if i < prev.len() {
                    assert(r[i] == prev[i]);
                }
            }
        }
    }
}

/// The non-zero tiles of a map region, in the order they are laid out.
pub fn map_tiles(
    entries: &[u8],
    flags: &[u8],
    map_x: u32,
    map_y: u32,
    width: u32,
    height: u32,
    mask: Option<u8>,
) -> (r: Vec<MapTile>)
    requires
        map_x + width + (map_y + height) * 128 <= u32::MAX,
        (width as int) * (height as int) <= usize::MAX,
    ensures
        r@ == spec_map_tiles(
            entries@,
            flags@,
            map_x as int,
            map_y as int,
            width as int,
            height as int,
            mask,
            width * height,
        ),
        forall|i: int|
            0 <= i < r@.len() ==> {
                let t = #[trigger] r@[i];
                &&& t.x < width
                &&& t.y < height
                &&& t.texture_index != 0
                &&& t.texture_index == spec_tile_index(
                    entries@,
                    flags@,
                    map_x as int,
                    map_y as int,
                    t.x as int,
                    height - 1 - t.y,
                    mask,
                )
            },
{
    proof {
        lemma_map_tiles_show_their_cells(
            entries@,
            flags@,
            map_x as int,
            map_y as int,
            width as int,
            height as int,
            mask,
            width * height,
        );
    }
    let mut tiles: Vec<MapTile> = Vec::new();
    let mut x: u32 = 0;
    while x < width
        invariant
            x <= width,
            map_x + width + (map_y + height) * 128 <= u32::MAX,
            height > 0 ==> tiles@ == spec_map_tiles(
                entries@,
                flags@,
                map_x as int,
                map_y as int,
                width as int,
                height as int,
                mask,
                x * height,
            ),
            height == 0 ==> tiles@.len() == 0,
        decreases width - x,
    {
        let mut y: u32 = 0;
        while y < height
            invariant
                x < width,
                y <= height,
                map_x + width + (map_y + height) * 128 <= u32::MAX,
                tiles@ == spec_map_tiles(
                    entries@,
                    flags@,
                    map_x as int,
                    map_y as int,
                    width as int,
                    height as int,
                    mask,
                    x * height + y,
                ),
            decreases height - y,
        {
            proof {
                assert((x * height + y) / (height as int) == x && (x * height + y) % (height as int)
                    == y) by (nonlinear_arith)
                    requires
                        y < height,
                        0 <= x,
                        0 <= y,
                ;
            }
            let t = tile_index(entries, flags, map_x, map_y, x, y, mask);
            if t != 0 {
                tiles.push(MapTile { x, y: height - y - 1, texture_index: t });
            }
            y = y + 1;
        }
        proof {
            assert(x * height + height == (x + 1) * height) by (nonlinear_arith);
        }
        x = x + 1;
    }
    proof {
        if height == 0 {
            assert(spec_map_tiles(
                entries@,
                flags@,
                map_x as int,
                map_y as int,
                width as int,
                height as int,
                mask,
                width * height,
            ) =~= seq![]);
        }
    }
    tiles
}

/// The registrations of maps: the script functions that read, write and draw maps.
pub fn plugin(app: &mut AppPlan)
    ensures
        final(app).same_features(*old(app)),
        final(app).steps@ == old(app).steps@ + script_steps(
            old(app).scripting,
            seq!["mget", "mset", "map"],
        ),
{
    let names: [&'static str; 3] = ["mget", "mset", "map"];
    assert(names@ =~= seq!["mget", "mset", "map"]);
    let enabled = app.scripting;
    add_script_functions(app, enabled, &names);
}

/// The registrations of tilemaps: their types, the map asset, and the systems
/// after each frame that lay out tilemaps, then compute their textures, then
/// their images, each after the one before.
pub fn tilemap_plugin(app: &mut AppPlan)
    ensures
        final(app).same_features(*old(app)),
        final(app).steps@ == old(app).steps@ + seq![
            Setup::Reflect("GfxTilemapTexture"),
            Setup::Reflect("P8SpriteMap"),
            Setup::Asset("P8Map"),
            Setup::System(Schedule::PostUpdate, "add_tilemaps"),
            Setup::SystemAfter(Schedule::PostUpdate, "compute_gfx_tilemap_texture_on_asset_event", "add_tilemaps"),
            Setup::SystemAfter(
                Schedule::PostUpdate,
                "compute_image_on_gfx_tilemap_texture_change",
                "compute_gfx_tilemap_texture_on_asset_event",
            ),
        ],
        runs_after(final(app).steps@, Schedule::PostUpdate, "compute_gfx_tilemap_texture_on_asset_event", "add_tilemaps"),
        runs_after(
            final(app).steps@,
            Schedule::PostUpdate,
            "compute_image_on_gfx_tilemap_texture_change",
            "compute_gfx_tilemap_texture_on_asset_event",
        ),
{
    app.add(Setup::Reflect("GfxTilemapTexture"));
    app.add(Setup::Reflect("P8SpriteMap"));
    app.add(Setup::Asset("P8Map"));
    app.add(Setup::System(Schedule::PostUpdate, "add_tilemaps"));
    app.add(Setup::SystemAfter(Schedule::PostUpdate, "compute_gfx_tilemap_texture_on_asset_event", "add_tilemaps"));
    app.add(
        Setup::SystemAfter(
            Schedule::PostUpdate,
            "compute_image_on_gfx_tilemap_texture_change",
            "compute_gfx_tilemap_texture_on_asset_event",
        ),
    );
    let ghost n = app.steps@.len();
    assert(app.steps@[n - 2] == Setup::SystemAfter(
        Schedule::PostUpdate,
        "compute_gfx_tilemap_texture_on_asset_event",
        "add_tilemaps",
    ));
    assert(app.steps@[n - 1] == Setup::SystemAfter(
        Schedule::PostUpdate,
        "compute_image_on_gfx_tilemap_texture_change",
        "compute_gfx_tilemap_texture_on_asset_event",
    ));
}

} // verus!
