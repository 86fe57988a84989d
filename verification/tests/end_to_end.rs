use kiddo::{ImmutableKdTree, SquaredEuclidean};
use tessera::dither::{adopt_quantized, prepare_source};
use tessera::error::MosaicError;
use tessera::index::IndexBounds;
use tessera::mosaic::{Composer, Step};
use tessera::palette::Palette;
use tessera::pixel::Rgb;
use tessera::raster::{Raster, TileImage};
use tessera::tile::palette_scale;

fn oklab(r: f32, g: f32, b: f32) -> [f32; 3] {
    let lp = (0.4122214708 * r + 0.5363325363 * g + 0.0514459929 * b).cbrt();
    let mp = (0.2119034982 * r + 0.6806995451 * g + 0.1073969566 * b).cbrt();
    let sp = (0.0883024619 * r + 0.2817188376 * g + 0.6299787005 * b).cbrt();
    [
        0.2104542553 * lp + 0.7936177850 * mp - 0.0040720468 * sp,
        1.9779984951 * lp - 2.4285922050 * mp + 0.4505937099 * sp,
        0.0259040371 * lp + 0.7827717662 * mp - 0.8086757660 * sp,
    ]
}

fn solid(width: u32, height: u32, pixel: [u8; 4]) -> TileImage {
    let mut bytes = Vec::new();
    for _ in 0..(width * height) {
        bytes.extend_from_slice(&pixel);
    }
    TileImage::new(width, height, bytes).unwrap()
}

fn palette_colors(palette: &Palette) -> Vec<[f32; 3]> {
    let scale = palette_scale(palette.tile_size()) as f64;
    let mut colors = Vec::new();
    for i in 0..palette.len() {
        let totals = palette.tile(i).unwrap().totals();
        colors.push(oklab(
            (totals.r as f64 / scale) as f32,
            (totals.g as f64 / scale) as f32,
            (totals.b as f64 / scale) as f32,
        ));
    }
    colors
}

fn run(source: Raster, palette: Palette) -> (Raster, usize) {
    IndexBounds::build(palette.len()).unwrap();
    let tree: ImmutableKdTree<f32, 3> = ImmutableKdTree::new_from_slice(&palette_colors(&palette));
    let mut composer = Composer::new(source, palette).unwrap();
    loop {
        match composer.advance() {
            Step::Query(Rgb { r, g, b }) => {
                let query = oklab(f32::from(r) / 255.0, f32::from(g) / 255.0, f32::from(b) / 255.0);
                let item = tree.nearest_one::<SquaredEuclidean>(&query).item;
                composer.answer(item).unwrap();
            }
            Step::Done => break,
        }
    }
    let asked = composer.lookups();
    (composer.finish().unwrap(), asked)
}

#[test]
fn red_pixel_gets_the_red_tile() {
    let mut palette = Palette::new(2).unwrap();
    palette.push_image(solid(2, 2, [255, 0, 0, 255])).unwrap();
    palette.push_image(solid(2, 2, [0, 0, 255, 255])).unwrap();
    let source = Raster::new(1, 1, vec![255, 0, 0]).unwrap();
    let (mosaic, asked) = run(source, palette);
    assert_eq!(asked, 1);
    assert_eq!(mosaic.width(), 2);
    assert_eq!(mosaic.height(), 2);
    assert_eq!(mosaic.pixels(), &vec![255, 0, 0, 255, 0, 0, 255, 0, 0, 255, 0, 0]);
}

#[test]
fn blue_pixel_gets_the_blue_tile() {
    let mut palette = Palette::new(2).unwrap();
    palette.push_image(solid(2, 2, [255, 0, 0, 255])).unwrap();
    palette.push_image(solid(2, 2, [0, 0, 255, 255])).unwrap();
    let source = Raster::new(2, 1, vec![10, 10, 200, 230, 20, 20]).unwrap();
    let (mosaic, asked) = run(source, palette);
    assert_eq!(asked, 2);
    assert_eq!(mosaic.pixel(0, 0), Some(Rgb { r: 0, g: 0, b: 255 }));
    assert_eq!(mosaic.pixel(1, 1), Some(Rgb { r: 0, g: 0, b: 255 }));
    assert_eq!(mosaic.pixel(2, 0), Some(Rgb { r: 255, g: 0, b: 0 }));
    assert_eq!(mosaic.pixel(3, 1), Some(Rgb { r: 255, g: 0, b: 0 }));
}

#[test]
fn single_tile_serves_every_colour() {
    let mut palette = Palette::new(1).unwrap();
    palette.push_image(solid(3, 3, [12, 34, 56, 255])).unwrap();
    let mut bytes = Vec::new();
    for i in 0..100u8 {
        bytes.extend_from_slice(&[i, i.wrapping_mul(3), 255 - i]);
    }
    let source = Raster::new(100, 1, bytes).unwrap();
    let (mosaic, asked) = run(source, palette);
    assert_eq!(asked, 100);
    for x in 0..100 {
        assert_eq!(mosaic.pixel(x, 0), Some(Rgb { r: 12, g: 34, b: 56 }));
    }
}

#[test]
fn tree_over_one_colour_always_answers_the_first_item() {
    let bounds = IndexBounds::build(1).unwrap();
    let tree: ImmutableKdTree<f32, 3> = ImmutableKdTree::new_from_slice(&[oklab(0.2, 0.4, 0.6)]);
    for query in [[0.0, 0.0, 0.0], [1.0, 1.0, 1.0], [-5.0, 3.0, 100.0], [0.2, 0.4, 0.6]] {
        let item = tree.nearest_one::<SquaredEuclidean>(&query).item;
        assert_eq!(bounds.resolve(item), Ok(0));
    }
}

#[test]
fn end_to_end_twice_gives_the_same_bytes() {
    let mut bytes = Vec::new();
    for i in 0..75u8 {
        bytes.push(i.wrapping_mul(91));
    }
    let build = || {
        let mut palette = Palette::new(2).unwrap();
        palette.push_image(solid(5, 3, [250, 10, 10, 255])).unwrap();
        palette.push_image(solid(2, 2, [10, 250, 10, 200])).unwrap();
        palette.push_image(solid(1, 4, [10, 10, 250, 255])).unwrap();
        palette.push_image(solid(2, 2, [128, 128, 128, 255])).unwrap();
        palette
    };
    let first = run(Raster::new(5, 5, bytes.clone()).unwrap(), build());
    let second = run(Raster::new(5, 5, bytes).unwrap(), build());
    assert_eq!(first.0.pixels(), second.0.pixels());
    assert_eq!(first.0.pixels().len(), 10 * 10 * 3);
    assert_eq!(first.1, second.1);
}

#[test]
fn undithered_source_is_taken_as_it_is() {
    let bytes: Vec<u8> = (0..48).collect();
    let prepared = prepare_source(Raster::new(4, 4, bytes.clone()).unwrap(), false).unwrap();
    assert_eq!(prepared.width(), 4);
    assert_eq!(prepared.height(), 4);
    assert_eq!(prepared.pixels(), &bytes);
}

#[test]
fn dithered_source_keeps_its_dimensions() {
    let mut bytes = Vec::new();
    for y in 0..16u8 {
        for x in 0..24u8 {
            bytes.extend_from_slice(&[x * 10, y * 15, x + y]);
        }
    }
    let prepared = prepare_source(Raster::new(24, 16, bytes).unwrap(), true).unwrap();
    assert_eq!(prepared.width(), 24);
    assert_eq!(prepared.height(), 16);
    assert_eq!(prepared.pixels().len(), 24 * 16 * 3);
}

#[test]
fn dithered_source_shows_no_more_colours_than_the_quantizer_has() {
    let mut bytes = Vec::new();
    for y in 0..40u32 {
        for x in 0..40u32 {
            bytes.extend_from_slice(&[(x * 6) as u8, (y * 6) as u8, ((x + y) * 3) as u8]);
        }
    }
    let given: std::collections::HashSet<[u8; 3]> =
        bytes.chunks(3).map(|p| [p[0], p[1], p[2]]).collect();
    assert_eq!(given.len(), 1600);
    let prepared = prepare_source(Raster::new(40, 40, bytes).unwrap(), true).unwrap();
    let shown: std::collections::HashSet<[u8; 3]> =
        prepared.pixels().chunks(3).map(|p| [p[0], p[1], p[2]]).collect();
    assert!(!shown.is_empty());
    assert!(shown.len() <= 256);
}

#[test]
fn dithering_a_single_pixel_keeps_its_dimensions() {
    let prepared = prepare_source(Raster::new(1, 1, vec![200, 100, 50]).unwrap(), true).unwrap();
    assert_eq!(prepared.width(), 1);
    assert_eq!(prepared.height(), 1);
    assert_eq!(prepared.pixels().len(), 3);
}

#[test]
fn dithering_a_solid_image_keeps_its_dimensions() {
    let prepared = prepare_source(Raster::new(5, 7, vec![9u8; 105]).unwrap(), true).unwrap();
    assert_eq!(prepared.width(), 5);
    assert_eq!(prepared.height(), 7);
    assert_eq!(prepared.pixels().len(), 105);
}

#[test]
fn dithering_a_one_pixel_wide_image_keeps_its_dimensions() {
    let bytes: Vec<u8> = (0..60).collect();
    let prepared = prepare_source(Raster::new(1, 20, bytes.clone()).unwrap(), true).unwrap();
    assert_eq!(prepared.pixels().len(), 60);
    let flat = prepare_source(Raster::new(20, 1, bytes).unwrap(), true).unwrap();
    assert_eq!(flat.pixels().len(), 60);
}

#[test]
fn dithering_an_image_without_pixels_does_nothing() {
    let prepared = prepare_source(Raster::new(0, 3, Vec::new()).unwrap(), true).unwrap();
    assert_eq!(prepared.width(), 0);
    assert_eq!(prepared.height(), 3);
}

#[test]
fn quantizer_outcome_must_be_an_image_of_the_same_size() {
    assert_eq!(adopt_quantized(2, 2, None).err(), Some(MosaicError::QuantizeFailed));
    assert_eq!(adopt_quantized(2, 2, Some(vec![0; 11])).err(), Some(MosaicError::QuantizeFailed));
    assert_eq!(adopt_quantized(2, 2, Some(vec![0; 13])).err(), Some(MosaicError::QuantizeFailed));
    let taken = adopt_quantized(2, 2, Some(vec![7; 12])).unwrap();
    assert_eq!(taken.width(), 2);
    assert_eq!(taken.pixels(), &vec![7; 12]);
}
