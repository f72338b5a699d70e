use nano9::asset;
use nano9::color::{N9Color, PColor};
use nano9::palette::{get_color, get_color_in, len_in, write_color_in};
use nano9::level::{self, PropBy};
use nano9::map::{map_tiles, tile_index, MapError, MapTile, P8Map};
use nano9::one_or_map::OneOrMap;
use nano9::palette::{
    access_for_settings, from_image, from_image_column, from_image_row, palette_access_to_gpu,
    palette_data_from_image, palette_from_plte, palette_index_to_xy, palette_len, palm, palm_wrapping,
    paln, strip_pixels, PalError, PaletteAccess, PaletteConfig, PaletteSettings, PaletteSource, PaletteState, RgbaImage,
};
use nano9::plan::{AppPlan, Schedule, Setup};
use nano9::sprite::{fget, fset, Spr};
use nano9::text::{print_text, sub};

#[test]
fn map_get_and_set() {
    let mut map = P8Map { entries: vec![0; 256] };
    assert_eq!(map.mset(1, 1, 300), Ok(()));
    assert_eq!(map.mget(1, 1), Ok(300 % 256));
    assert_eq!(map.mget(0, 2), Err(MapError::NoSuchIndex(256)));
    assert_eq!(map.mset(0, 2, 1), Err(MapError::NoSuchEntry));
}

#[test]
fn map_tiles_skip_empty_and_masked_cells() {
    let mut entries = vec![0u8; 256];
    entries[0] = 1;
    entries[128] = 2;
    let flags = vec![0u8, 0b01, 0b10];
    assert_eq!(tile_index(&entries, &flags, 0, 0, 0, 1, None), 2);
    assert_eq!(tile_index(&entries, &flags, 0, 0, 0, 1, Some(0b01)), 0);
    let tiles = map_tiles(&entries, &flags, 0, 0, 1, 2, None);
    assert_eq!(
        tiles,
        vec![MapTile { x: 0, y: 1, texture_index: 1 }, MapTile { x: 0, y: 0, texture_index: 2 }]
    );
}

#[test]
fn sprite_flags() {
    let mut flags = vec![0u8; 4];
    fset(&mut flags, 2, Some(3), 1);
    assert_eq!(fget(&flags, Some(2), None), 0b1000);
    assert_eq!(fget(&flags, Some(2), Some(3)), 1);
    assert_eq!(fget(&flags, Some(2), Some(2)), 0);
    fset(&mut flags, 2, None, 0xff);
    fset(&mut flags, 2, Some(0), 0);
    assert_eq!(fget(&flags, Some(2), None), 0xfe);
    assert_eq!(fget(&flags, None, None), 0);
    assert_eq!(fget(&flags, Some(10), None), 0);
}

#[test]
fn sprites_resolve_their_sheet() {
    assert_eq!(Spr::from(3usize).resolve(1), (1, 3));
    assert_eq!(Spr::from((3usize, 2usize)).resolve(1), (2, 3));
}

fn image() -> RgbaImage {
    RgbaImage {
        width: 2,
        height: 2,
        pixels: vec![[1, 0, 0, 255], [2, 0, 0, 255], [3, 0, 0, 255], [4, 0, 0, 255]],
    }
}

#[test]
fn palette_access_modes() {
    assert_eq!(palette_len(&PaletteAccess::LinearByRow, 4, 2), 8);
    assert_eq!(palette_len(&PaletteAccess::FromRow(1), 4, 2), 4);
    assert_eq!(palette_index_to_xy(&PaletteAccess::LinearByRow, 4, 2, 5), Some((1, 1)));
    assert_eq!(palette_index_to_xy(&PaletteAccess::LinearByColumn, 4, 2, 5), Some((2, 1)));
    assert_eq!(palette_index_to_xy(&PaletteAccess::FromColumn(9), 4, 2, 0), None);
    assert_eq!(palette_access_to_gpu(&PaletteAccess::FromColumn(3)), (3, 3));
    assert_eq!(access_for_settings(PaletteSettings::FromRow(2)), PaletteAccess::FromRow(2));
    assert_eq!(PaletteAccess::default(), PaletteAccess::LinearByRow);
}

#[test]
fn palette_from_images() {
    let img = image();
    assert_eq!(from_image_row(&img, 1), vec![[3, 0, 0, 255], [4, 0, 0, 255]]);
    assert_eq!(from_image_column(&img, 1), vec![[2, 0, 0, 255], [4, 0, 0, 255]]);
    assert_eq!(from_image(&img).len(), 4);
    assert_eq!(
        palette_data_from_image(&img, &PaletteAccess::LinearByColumn),
        vec![[1, 0, 0, 255], [3, 0, 0, 255], [2, 0, 0, 255], [4, 0, 0, 255]]
    );
    assert_eq!(palette_from_plte(&[1, 2, 3, 4, 5, 6]), vec![[1, 2, 3, 255], [4, 5, 6, 255]]);
    assert_eq!(strip_pixels(&[[1, 2, 3, 4]]), vec![1, 2, 3, 4]);
}

#[test]
fn palette_choice() {
    let mut current = PaletteState { palette: 0, material: Some(7) };
    assert_eq!(palm(&mut current, None, 3), Ok(0));
    assert_eq!(current, PaletteState { palette: 0, material: Some(7) });
    assert_eq!(palm(&mut current, Some(2), 3), Ok(0));
    assert_eq!(current, PaletteState { palette: 2, material: None });
    current.material = Some(9);
    assert_eq!(palm(&mut current, Some(3), 3), Err(PalError::NoSuchPalette { index: 3, count: 3 }));
    assert_eq!(current, PaletteState { palette: 2, material: Some(9) });
    assert_eq!(palm_wrapping(&mut current, Some(4), 3), Ok(2));
    assert_eq!(current, PaletteState { palette: 1, material: None });
    assert_eq!(paln(None, 3, None), Ok(3));
    let config = PaletteConfig { path: "p.png".to_string(), row: Some(1), column: Some(2), extract_index: None };
    assert_eq!(config.into_settings(), Some(PaletteSettings::FromRow(1)));
}

#[test]
fn one_or_map_grows() {
    let mut m = OneOrMap::new(1, "a");
    assert_eq!(m.get(&1), Some(&"a"));
    assert_eq!(m.insert(1, "b"), Some("a"));
    assert!(matches!(m, OneOrMap::One { key: 1, value: "b" }));
    assert_eq!(m.insert(2, "c"), None);
    assert!(matches!(m, OneOrMap::Many(_)));
    assert_eq!(m.get(&1), Some(&"b"));
    assert_eq!(m.get(&2), Some(&"c"));
    assert_eq!(m.get(&3), None);
}

#[test]
fn sub_counts_from_one() {
    assert_eq!(sub("hello", 2, Some(4)), "ell");
    assert_eq!(sub("hello", 2, None), "ello");
    assert_eq!(sub("hello", 4, Some(2)), "");
    assert_eq!(sub("hello", 1, Some(-1)), "hello");
    assert_eq!(sub("hello", 0, None), "");
    assert_eq!(sub("héllo", 2, Some(2)), "é");
}

#[test]
fn print_drops_a_final_nul() {
    assert_eq!(print_text("hi\0"), ("hi".to_string(), false));
    assert_eq!(print_text("hi"), ("hi".to_string(), true));
}

#[test]
fn plugins_plan_their_registrations() {
    let mut app = AppPlan::new(true, false, true, false);
    nano9::sys::plugin(&mut app);
    assert!(app.steps.iter().any(|s| matches!(s, Setup::System(Schedule::Startup, "queue_startup_headless"))));
    assert!(app.steps.iter().any(|s| matches!(s, Setup::ScriptFunction("extcmd"))));
    let before = app.steps.len();
    level::plugin(&mut app);
    assert_eq!(app.steps.len(), before);
    asset::plugin(&mut app);
    assert_eq!(app.steps.len(), before);
    nano9::components::plugin(&mut app);
    assert!(!app.steps.iter().any(|s| matches!(s, Setup::System(_, "sync_window_size"))));
    let mut quiet = AppPlan::new(false, true, false, false);
    nano9::sprite::plugin(&mut quiet);
    assert!(quiet.steps.is_empty());
    nano9::gfx::plugin(&mut quiet);
    assert_eq!(quiet.steps.len(), 10);
}

#[test]
fn prop_by_name() {
    let p: PropBy<(f32, f32)> = PropBy::from("door".to_string());
    assert!(matches!(p, PropBy::Name(ref n) if n == "door"));
    let _ = asset::N9Font { source: "font.ttf" };
}

#[test]
fn palette_colour_lookup() {
    let img = image();
    assert_eq!(len_in(&PaletteAccess::FromColumn(0), &img), 2);
    assert_eq!(get_color_in(&PaletteAccess::LinearByRow, &img, 3), Ok([4, 0, 0, 255]));
    assert_eq!(get_color_in(&PaletteAccess::FromColumn(1), &img, 1), Ok([4, 0, 0, 255]));
    assert_eq!(get_color_in(&PaletteAccess::LinearByRow, &img, 4), Err(PalError::NoSuchColor(4)));
}

#[test]
fn pen_colour_from_option() {
    assert!(matches!(N9Color::from_option(None), N9Color::Pen));
    assert!(matches!(N9Color::from_option(Some(PColor::Palette(2))), N9Color::PColor(PColor::Palette(2))));
}

#[test]
fn palettes_by_index() {
    let palettes = vec!["pico8", "gameboy"];
    assert_eq!(nano9::palette::get_pal(&palettes, 1), Ok(&"gameboy"));
    assert_eq!(nano9::palette::get_pal(&palettes, 2), Err(PalError::NoSuchPalette { index: 2, count: 2 }));
}

#[test]
fn colours_resolve_through_the_palette_or_its_fallback() {
    let palettes = vec![
        PaletteSource { access: PaletteAccess::LinearByRow, image: Some(image()) },
        PaletteSource { access: PaletteAccess::LinearByRow, image: None },
    ];
    let fallback = [[9, 9, 9, 255], [8, 8, 8, 255]];
    assert_eq!(get_color(PColor::Palette(3), &palettes, 0, &fallback), Ok([4, 0, 0, 255]));
    assert_eq!(
        get_color(PColor::Palette(4), &palettes, 0, &fallback),
        Err(PalError::NoSuchPaletteColor { color: 4, palette: 0 })
    );
    assert_eq!(get_color(PColor::Palette(1), &palettes, 1, &fallback), Ok([8, 8, 8, 255]));
    assert_eq!(
        get_color(PColor::Palette(2), &palettes, 1, &fallback),
        Err(PalError::NoSuchPaletteColor { color: 2, palette: 1 })
    );
    assert_eq!(
        get_color(PColor::Palette(0), &palettes, 2, &fallback),
        Err(PalError::NoSuchPalette { index: 2, count: 2 })
    );
    assert_eq!(get_color(PColor::Color([1, 2, 3, 4]), &palettes, 7, &fallback), Ok([1, 2, 3, 4]));
}

#[test]
fn colour_written_into_a_short_buffer() {
    let img = image();
    let mut bytes = vec![7u8; 3];
    assert_eq!(write_color_in(&PaletteAccess::LinearByRow, &img, 1, &mut bytes), Ok(()));
    assert_eq!(bytes, vec![2, 0, 0]);
    assert_eq!(
        write_color_in(&PaletteAccess::LinearByRow, &img, 9, &mut bytes),
        Err(PalError::NoSuchColor(9))
    );
    assert_eq!(bytes, vec![2, 0, 0]);
}

#[test]
fn systems_keep_their_order() {
    let mut app = AppPlan::new(false, true, false, false);
    nano9::components::plugin(&mut app);
    assert!(app.steps.iter().any(|s| matches!(s, Setup::SystemAfter(Schedule::PreUpdate, "setup_canvas", "spawn_camera"))));
    let mut app = AppPlan::new(false, true, false, false);
    nano9::map::tilemap_plugin(&mut app);
    assert!(app.steps.iter().any(|s| matches!(
        s,
        Setup::SystemAfter(Schedule::PostUpdate, "compute_gfx_tilemap_texture_on_asset_event", "add_tilemaps")
    )));
    let mut app = AppPlan::new(false, true, false, false);
    nano9::gfx::plugin(&mut app);
    assert!(app.steps.iter().any(|s| matches!(
        s,
        Setup::SystemAfter(Schedule::PostUpdate, "compute_image_on_gfx_sprite_change", "compute_image_on_asset_event")
    )));
}

#[test]
fn row_and_column_palettes_need_no_pixel_count() {
    assert_eq!(palette_index_to_xy(&PaletteAccess::FromRow(1), 4, 2, 3), Some((3, 1)));
    assert_eq!(palette_index_to_xy(&PaletteAccess::FromColumn(0), 4, 2, 2), None);
}
