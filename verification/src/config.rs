//! How the entries of a `Nano9.toml` config are loaded: each map and sprite
//! sheet by its file's extension.
use vstd::prelude::*;

use crate::sys::is_word;

verus! {

/// How a config's map is loaded.
#[derive(Debug, Clone, Copy, PartialEq, Eq, Structural)]
pub enum MapSource {
    /// The map section of a Pico-8 cart (`.p8`).
    P8,
    /// A Tiled map (`.tmx`), with levels built in.
    TiledMap,
    /// A Tiled world (`.world`), with levels built in.
    TiledWorld,
}

/// The map extensions that load: `p8`, and `tmx` and `world` when levels are
/// built in (`level`).
pub open spec fn map_extension_known(extension: Seq<char>, level: bool) -> bool {
    ||| extension == "p8"@
    ||| level && (extension == "tmx"@ || extension == "world"@)
}

/// How a config's map with this extension is loaded (the extension is empty
/// for a path without one). Another extension is not a map, and cannot be
/// loaded.
pub fn map_source(extension: &str, level: bool) -> (r: MapSource)
    requires
        map_extension_known(extension@, level),
    ensures
        extension@ == "p8"@ ==> r == MapSource::P8,
        extension@ != "p8"@ && extension@ == "tmx"@ ==> r == MapSource::TiledMap,
        extension@ != "p8"@ && extension@ != "tmx"@ ==> r == MapSource::TiledWorld,
{
    if is_word(extension, "p8") {
        MapSource::P8
    } else if is_word(extension, "tmx") {
        MapSource::TiledMap
    } else {
        MapSource::TiledWorld
    }
}

/// How a config's sprite sheet is loaded.
#[derive(Debug, Clone, Copy, PartialEq, Eq, Structural)]
pub enum SheetSource {
    /// The sprite sheet of a Pico-8 cart, as the cart has it.
    Cart,
    /// An image, with the config's sprite size, counts, padding and offset.
    Image,
}

/// How a config's sprite sheet with this extension (`None` for a path without
/// one) is loaded: a `.p8` cart's sheet as it is, anything else as an image.
pub fn sheet_source(extension: Option<&str>) -> (r: SheetSource)
    ensures
        r == match extension {
            Some(e) => if e@ == "p8"@ {
                SheetSource::Cart
            } else {
                SheetSource::Image
            },
            None => SheetSource::Image,
        },
{
    match extension {
        Some(e) => if is_word(e, "p8") {
            SheetSource::Cart
        } else {
            SheetSource::Image
        },
        None => SheetSource::Image,
    }
}

} // verus!
