use nano9::camera::camera;
use nano9::camera3d::{camera3d, camera3d_active, update_camera3d, Camera3dCommand, Camera3dUpdate};
use nano9::color::{N9Color, PColor, PalModify};
use nano9::draw::{color, cursor, pset, rnd_pick, sset, DrawError};
use nano9::gfx::Gfx;
use nano9::line::{line_image, try_tline_gfx, try_tline_rgba, LineError};
use nano9::palette::RgbaImage;
use nano9::raster::Raster;
use nano9::shapes::size_to_corners;

fn pixel(r: &Raster, x: u32, y: u32) -> [u8; 4] {
    let i = ((y * r.width + x) * 4) as usize;
    [r.data[i], r.data[i + 1], r.data[i + 2], r.data[i + 3]]
}

const PEN: [u8; 4] = [10, 20, 30, 255];
const CLEAR: [u8; 4] = [0, 0, 0, 0];

#[test]
fn raster_starts_clear_and_at_least_one_pixel() {
    let r = Raster::new((0, 3), PEN);
    assert_eq!((r.width, r.height), (1, 3));
    assert_eq!(r.data, vec![0; 12]);
}

#[test]
fn plot_sets_only_its_pixel() {
    let mut r = Raster::new((3, 2), PEN);
    r.plot(2, 1);
    assert_eq!(pixel(&r, 2, 1), PEN);
    assert_eq!(pixel(&r, 1, 1), CLEAR);
    r.plot_clip(5, 0);
    r.plot_clip(-1, 0);
    assert_eq!(r.data.iter().filter(|b| **b != 0).count(), 4);
}

#[test]
fn lines_fill_in_either_order() {
    let mut r = Raster::new((4, 4), PEN);
    r.hline(3, 1, 0);
    assert_eq!(pixel(&r, 0, 0), CLEAR);
    assert_eq!(pixel(&r, 1, 0), PEN);
    assert_eq!(pixel(&r, 3, 0), PEN);
    r.vline(3, 1, 2);
    assert_eq!(pixel(&r, 2, 0), PEN);
    assert_eq!(pixel(&r, 2, 1), PEN);
    assert_eq!(pixel(&r, 2, 3), PEN);
    assert_eq!(pixel(&r, 1, 2), CLEAR);
}

#[test]
fn clipped_line_stays_inside() {
    let mut r = Raster::new((3, 1), PEN);
    r.hline_clip(-5, 10, 0);
    assert_eq!(r.data, [PEN, PEN, PEN].concat());
    let mut s = Raster::new((3, 1), PEN);
    s.hline_clip(0, 2, 4);
    assert_eq!(s.data, vec![0; 12]);
}

#[test]
fn points_and_spans() {
    let mut r = Raster::new((3, 3), PEN);
    r.plot_points(&[(0, 0), (2, 2)]);
    r.fill_spans(&[(0, 2, 1)]);
    assert_eq!(pixel(&r, 0, 0), PEN);
    assert_eq!(pixel(&r, 1, 1), PEN);
    assert_eq!(pixel(&r, 2, 2), PEN);
    assert_eq!(pixel(&r, 1, 0), CLEAR);
}

#[test]
fn line_image_of_a_diagonal() {
    let (image, corner) = line_image((3, 4), (0, 1)).unwrap();
    assert_eq!(corner, (0, 1));
    assert_eq!((image.width, image.height), (4, 4));
    let white = [255, 255, 255, 255];
    // Bresenham from (3, 3) towards (0, 0) in the image, the end left out.
    assert_eq!(pixel(&image, 3, 3), white);
    assert_eq!(pixel(&image, 1, 1), white);
    assert_eq!(pixel(&image, 0, 0), CLEAR);
    assert_eq!(pixel(&image, 3, 0), CLEAR);
}

#[test]
fn line_image_of_a_point_is_blank() {
    let (image, corner) = line_image((5, 5), (5, 5)).unwrap();
    assert_eq!(corner, (5, 5));
    assert_eq!(image.data, vec![0; 4]);
    let _ = LineError::EmptySheet;
}

#[test]
fn tline_samples_the_sheet() {
    let mut sheet = Gfx::new(4, 2, 1);
    sheet.set(0, 0, 3);
    sheet.set(1, 0, 5);
    let (line, corner) = try_tline_gfx((0, 0), (3, 0), (0, 0), None, &sheet, 16).unwrap().unwrap();
    assert_eq!(corner, (0, 0));
    assert_eq!(line.bitdepth, 4);
    assert_eq!((line.width, line.height), (4, 1));
    // The map coordinate walks right and wraps on the sheet's width.
    assert_eq!(line.get(0, 0), Some(3));
    assert_eq!(line.get(1, 0), Some(5));
    assert_eq!(line.get(2, 0), Some(3));
    assert_eq!(line.get(3, 0), Some(0));
    let empty = Gfx::new(4, 0, 0);
    assert_eq!(try_tline_gfx((0, 0), (1, 0), (0, 0), None, &empty, 16).unwrap().err(), Some(LineError::EmptySheet));
}

#[test]
fn tline_copies_colours_of_an_rgba_sheet() {
    let sheet = RgbaImage { width: 2, height: 1, pixels: vec![[1, 2, 3, 4], [5, 6, 7, 8]] };
    let (line, corner) = try_tline_rgba((0, 2), (3, 2), (0, 0), None, &sheet).unwrap().unwrap();
    assert_eq!(corner, (0, 2));
    assert_eq!((line.width, line.height), (4, 1));
    assert_eq!(pixel(&line, 0, 0), [1, 2, 3, 4]);
    assert_eq!(pixel(&line, 1, 0), [5, 6, 7, 8]);
    assert_eq!(pixel(&line, 2, 0), [1, 2, 3, 4]);
    assert_eq!(pixel(&line, 3, 0), CLEAR);
    // A map step to the left wraps to the sheet's last column.
    let (back, _) = try_tline_rgba((0, 0), (2, 0), (0, 0), Some((-1, 0)), &sheet).unwrap().unwrap();
    assert_eq!(pixel(&back, 0, 0), [1, 2, 3, 4]);
    assert_eq!(pixel(&back, 1, 0), [5, 6, 7, 8]);
    let empty = RgbaImage { width: 0, height: 3, pixels: vec![] };
    assert_eq!(try_tline_rgba((0, 0), (1, 0), (0, 0), None, &empty).unwrap().err(), Some(LineError::EmptySheet));
    let torn = RgbaImage { width: 2, height: 2, pixels: vec![[0; 4]] };
    assert!(try_tline_rgba((0, 0), (1, 0), (0, 0), None, &torn).is_none());
}

#[test]
fn corners() {
    assert_eq!(size_to_corners(1, 1, 3, -2), (1, 0, 3, 1));
}

#[test]
fn pen_colour_is_checked_against_the_palette() {
    let mut pen = PColor::Palette(1);
    assert!(matches!(color(&mut pen, Some(PColor::Palette(3)), 16), Ok(PColor::Palette(1))));
    assert!(matches!(pen, PColor::Palette(3)));
    assert_eq!(color(&mut pen, Some(PColor::Palette(16)), 16).err(), Some(DrawError::NoSuchColor(16)));
    assert!(matches!(pen, PColor::Palette(3)));
    assert!(matches!(color(&mut pen, Some(PColor::Color([1, 2, 3, 4])), 0), Ok(PColor::Palette(3))));
}

#[test]
fn cursor_returns_what_was() {
    let mut pos = (1, 2);
    let mut pen = PColor::Palette(0);
    let (last, last_pen) = cursor(&mut pos, &mut pen, Some((5, 6)), None);
    assert_eq!(last, (1, 2));
    assert!(matches!(last_pen, PColor::Palette(0)));
    assert_eq!(pos, (5, 6));
}

#[test]
fn pset_and_sset_write_indices() {
    let mut canvas = Gfx::new(4, 2, 2);
    assert!(pset(&mut canvas, 1, 1, None, PColor::Palette(6)).is_ok());
    assert_eq!(canvas.get(1, 1), Some(6));
    assert_eq!(
        pset(&mut canvas, 0, 2, Some(PColor::Palette(2)), PColor::Palette(6)),
        Err(DrawError::OutOfBounds { color: 2, x: 0, y: 2 })
    );
    assert_eq!(sset(&mut canvas, 0, 0, Some(PColor::Color([0; 4])), PColor::Palette(1)), Err(DrawError::NotIndexed));
    assert!(sset(&mut canvas, 0, 0, None, PColor::Palette(9)).is_ok());
    assert_eq!(canvas.get(0, 0), Some(9));
}

#[test]
fn rnd_picks_by_remainder() {
    let mut list = vec![10, 20, 30];
    assert_eq!(rnd_pick(&mut list, 4), Some(20));
    assert_eq!(list, vec![10, 30]);
    let mut empty: Vec<u8> = vec![];
    assert_eq!(rnd_pick(&mut empty, 1), None);
}

#[test]
fn pen_defaults_and_modes() {
    assert!(matches!(N9Color::default(), N9Color::Pen));
    assert!(matches!(N9Color::Pen.into_pcolor(&PColor::Palette(4)), PColor::Palette(4)));
    assert!(matches!(PColor::from(7usize).map_pal(|i| i + 1), PColor::Palette(8)));
    assert_eq!(PalModify::from_mode(1), PalModify::Present);
    assert_eq!(PalModify::default(), PalModify::Following);
}

#[test]
fn cameras() {
    let mut pos = (1.5f32, 2.0f32);
    assert_eq!(camera(&mut pos, Some((0.0, 0.0))), (1.5, 2.0));
    assert_eq!(camera(&mut pos, None), (0.0, 0.0));
    let cmds = camera3d(Some([1.0f32, 2.0, 3.0]), None);
    assert_eq!(cmds.len(), 1);
    assert!(matches!(cmds[0], Camera3dCommand::Goto { .. }));
    assert!(matches!(update_camera3d::<[f32; 3]>(vec![], true), Camera3dUpdate::Idle));
    assert!(matches!(update_camera3d(cmds.clone(), false), Camera3dUpdate::SpawnCamera(ref v) if v.len() == 1));
    assert!(matches!(update_camera3d(cmds, true), Camera3dUpdate::Apply(ref v) if v.len() == 1));
    assert!(matches!(camera3d_active::<[f32; 3]>(false), Camera3dCommand::Activate { active: false }));
}
