use nano9::gfx::{bits_required, Gfx};
use nano9::gfx_png::{from_png_palette, try_from_png_palette, PngError, PngFrame};

const BIT1_PALETTE: [[u8; 4]; 2] = [[0x00, 0x00, 0x00, 0xff], [0xff, 0xff, 0xff, 0xff]];

fn indexed_png(width: u32, height: u32, depth: png::BitDepth, palette: &[u8], data: &[u8]) -> Vec<u8> {
    let mut out = Vec::new();
    {
        let mut encoder = png::Encoder::new(&mut out, width, height);
        encoder.set_color(png::ColorType::Indexed);
        encoder.set_depth(depth);
        encoder.set_palette(palette.to_vec());
        let mut writer = encoder.write_header().unwrap();
        writer.write_image_data(data).unwrap();
    }
    out
}

#[test]
fn ex0() {
    let mut a = Gfx::new(4, 8, 8);
    assert_eq!(0, a.get(0, 0).unwrap());
    a.set(0, 0, 15);
    assert_eq!(15, a.get(0, 0).unwrap());
}

#[test]
fn create_image() {
    let mut a = Gfx::new(4, 8, 8);
    assert_eq!(0, a.get(0, 0).unwrap());
    a.set(0, 0, 15);
    let _ = a.to_image(|_, _| [0, 0, 0, 0]);
}

#[test]
fn create_1bit_image() {
    let a = Gfx::from_vec(
        1,
        8,
        8,
        vec![
            0b00000001, 0b00000010, 0b00000100, 0b00001000, 0b00010000, 0b00100000, 0b01000000,
            0b10000000,
        ],
    );
    let image = a.to_image(|i, _| BIT1_PALETTE[i as usize]);
    let color_at = |x: usize, y: usize| -> [u8; 4] {
        let k = (y * 8 + x) * 4;
        [image[k], image[k + 1], image[k + 2], image[k + 3]]
    };
    assert_eq!(color_at(0, 0), [0xff, 0xff, 0xff, 0xff]);
    assert_eq!(color_at(0, 7), [0x00, 0x00, 0x00, 0xff]);
}

#[test]
fn color_indices_list_every_pixel() {
    let mut a = Gfx::new(4, 8, 8);
    a.set(0, 0, 15);
    let indices = a.color_indices();
    assert_eq!(indices.len(), 64);
    assert_eq!(indices[0], 15);
}

#[test]
fn write_bytes_fills_each_pixel_from_its_index() {
    let mut a = Gfx::new(4, 2, 1);
    a.set(1, 0, 3);
    let mut bytes = vec![9u8; 12];
    a.write_bytes(&mut bytes, |c, i| [c, i as u8, 0, 255]);
    assert_eq!(bytes, vec![0, 0, 0, 255, 3, 1, 0, 255, 9, 9, 9, 9]);
}

#[test]
fn try_write_bytes_stops_at_the_first_failure() {
    let mut a = Gfx::new(4, 3, 1);
    a.set(1, 0, 7);
    a.set(2, 0, 1);
    let mut bytes = vec![9u8; 12];
    let r = a.try_write_bytes(&mut bytes, |c, _| if c == 7 { Err(c) } else { Ok([c; 4]) });
    assert_eq!(r, Err(7));
    assert_eq!(bytes, vec![0, 0, 0, 0, 9, 9, 9, 9, 9, 9, 9, 9]);
    let ok: Result<Vec<u8>, u8> = a.try_to_image(|c, _| Ok([c, c, c, 255]));
    assert_eq!(ok, Ok(vec![0, 0, 0, 255, 7, 7, 7, 255, 1, 1, 1, 255]));
    assert_eq!(a.try_to_image(|c, _| if c == 1 { Err("no colour") } else { Ok([0; 4]) }), Err("no colour"));
}

#[test]
fn test_highest_bit_index() {
    assert_eq!(bits_required(16), Some(4));
    assert_eq!(bits_required(17), Some(5));
    assert_eq!(bits_required(4), Some(2));
    assert_eq!(bits_required(5), Some(3));
    assert_eq!(bits_required(6), Some(3));
    assert_eq!(bits_required(7), Some(3));
    assert_eq!(bits_required(8), Some(3));
    assert_eq!(bits_required(9), Some(4));
    assert_eq!(bits_required(2), Some(1));
}

#[test]
fn no_colours_need_no_bits() {
    assert_eq!(bits_required(0), None);
    assert_eq!(bits_required(1), Some(0));
}

#[test]
fn get_beyond_the_data_is_none_and_set_fails() {
    let mut a = Gfx::new(2, 2, 2);
    assert_eq!(a.get(1, 1), Some(0));
    assert_eq!(a.get(0, 2), None);
    assert!(!a.set(0, 2, 3));
    assert!(a.set(1, 1, 7));
    // Two bits keep the low bits of the index.
    assert_eq!(a.get(1, 1), Some(3));
}

#[test]
fn clear_zeroes_every_index() {
    let mut a = Gfx::new(4, 2, 2);
    a.set(1, 0, 9);
    a.clear();
    assert_eq!(a.color_indices(), vec![0, 0, 0, 0]);
}

#[test]
fn png_indexed_image_loads_with_palette() {
    let bytes = indexed_png(2, 2, png::BitDepth::Eight, &[1, 2, 3, 4, 5, 6, 7, 8, 9], &[0, 1, 2, 1]);
    let mut palette = Some(vec![[0u8; 4]]);
    let gfx = Gfx::try_from_png(&bytes, &mut palette).unwrap().unwrap();
    assert_eq!(gfx.bitdepth, 8);
    assert_eq!((gfx.width, gfx.height), (2, 2));
    assert_eq!(gfx.get(0, 0), Some(0));
    assert_eq!(gfx.get(1, 0), Some(1));
    assert_eq!(gfx.get(0, 1), Some(2));
    assert_eq!(
        palette,
        Some(vec![[1, 2, 3, 255], [4, 5, 6, 255], [7, 8, 9, 255]])
    );
}

#[test]
fn png_without_palette_argument_keeps_none() {
    let bytes = indexed_png(2, 1, png::BitDepth::Eight, &[1, 2, 3, 4, 5, 6], &[1, 0]);
    let mut palette = None;
    let gfx = Gfx::from_png(&bytes, &mut palette).unwrap();
    assert_eq!(gfx.get(0, 0), Some(1));
    assert!(palette.is_none());
}

#[test]
fn png_rgb_is_not_indexed() {
    let mut out = Vec::new();
    {
        let mut encoder = png::Encoder::new(&mut out, 1, 1);
        encoder.set_color(png::ColorType::Rgb);
        encoder.set_depth(png::BitDepth::Eight);
        let mut writer = encoder.write_header().unwrap();
        writer.write_image_data(&[1, 2, 3]).unwrap();
    }
    let mut palette = None;
    assert!(matches!(Gfx::from_png(&out, &mut palette), Err(PngError::NotIndexed)));
}

#[test]
fn png_garbage_is_a_decoding_error() {
    let mut palette = Some(vec![[9u8; 4]]);
    let r = Gfx::try_from_png(&[1, 2, 3], &mut palette).unwrap();
    assert!(matches!(r, Err(PngError::Decoding(_))));
    assert_eq!(palette, Some(vec![[9u8; 4]]));
}

#[test]
fn png_palette_alone() {
    let bytes = indexed_png(1, 1, png::BitDepth::Eight, &[10, 20, 30], &[0]);
    assert_eq!(from_png_palette(&bytes).unwrap(), Some(vec![[10, 20, 30, 255]]));
    assert!(try_from_png_palette(&[0, 0]).unwrap().is_err());
}

#[test]
fn frame_repacks_to_fewer_bits() {
    // Two 4-bit pixels in one byte, narrowed to 2 bits each.
    let frame = PngFrame { width: 2, height: 1, bit_depth: 4, buf: vec![0b0010_0001] };
    let gfx = Gfx::from_png_frame(frame, 2).unwrap();
    assert_eq!(gfx.bitdepth, 2);
    assert_eq!(gfx.get(0, 0), Some(1));
    assert_eq!(gfx.get(1, 0), Some(2));
}

#[test]
fn frame_with_a_wide_index_is_refused() {
    // An 8-bit pixel of value 0x10 does not fit in 2 bits.
    let frame = PngFrame { width: 2, height: 1, bit_depth: 8, buf: vec![1, 0x10] };
    match Gfx::from_png_frame(frame, 2) {
        Err(PngError::BitDepthConversion { pixel_index, pixel_value }) => {
            assert_eq!(pixel_index, 1);
            assert_eq!(pixel_value, 0x10);
        }
        _ => panic!("expected a conversion error"),
    }
}

#[test]
fn mirror_reverses_each_row() {
    let a = Gfx::from_vec(1, 3, 2, vec![0b0000_1001]);
    let m = a.mirror_horizontal();
    assert_eq!((m.width, m.height), (3, 2));
    assert_eq!(m.get(0, 0), Some(0));
    assert_eq!(m.get(2, 0), Some(1));
    assert_eq!(m.get(0, 1), Some(0));
    assert_eq!(m.get(2, 1), Some(1));
}

#[test]
fn mirroring_twice_gives_the_image_back() {
    let a = Gfx::from_vec(1, 3, 2, vec![0b0010_1101]);
    let before: Vec<Option<u8>> = (0..6).map(|i| a.get(i % 3, i / 3)).collect();
    let back = a.mirror_horizontal().mirror_horizontal();
    let after: Vec<Option<u8>> = (0..6).map(|i| back.get(i % 3, i / 3)).collect();
    assert_eq!(before, after);
}
