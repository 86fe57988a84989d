use tessera::error::MosaicError;
use tessera::palette::{accepts_extension, Palette};
use tessera::pixel::{composite_channel, Rgb};
use tessera::raster::{Raster, TileImage};
use tessera::tile::{composite_over_black, palette_scale, summarize_tile, ChannelTotals, PaletteTile};

fn solid(width: u32, height: u32, pixel: [u8; 4]) -> TileImage {
    let mut bytes = Vec::new();
    for _ in 0..(width * height) {
        bytes.extend_from_slice(&pixel);
    }
    TileImage::new(width, height, bytes).unwrap()
}

#[test]
fn channel_over_black_rounds_down() {
    assert_eq!(composite_channel(200, 128), 100);
    assert_eq!(composite_channel(255, 254), 254);
    assert_eq!(composite_channel(1, 254), 0);
    assert_eq!(composite_channel(0, 0), 0);
    assert_eq!(composite_channel(255, 0), 0);
    assert_eq!(composite_channel(10, 1), 0);
}

#[test]
fn channel_at_full_alpha_is_unchanged() {
    for c in 0..=255u8 {
        assert_eq!(composite_channel(c, 255), c);
    }
}

#[test]
fn channel_matches_real_arithmetic_for_every_input() {
    for c in 0..=255u8 {
        for a in 0..=255u8 {
            let real = f32::from(c) * f32::from(a) / 255.0;
            assert_eq!(composite_channel(c, a), real as u8);
        }
    }
}

#[test]
fn compositing_keeps_opaque_pixels_and_alpha_bytes() {
    let mut pixels = vec![10, 20, 30, 255, 200, 100, 50, 128, 9, 8, 7, 0];
    let totals = composite_over_black(&mut pixels);
    assert_eq!(pixels, vec![10, 20, 30, 255, 100, 50, 25, 128, 0, 0, 0, 0]);
    assert_eq!(
        totals,
        ChannelTotals { r: 10 * 255 + 200 * 128, g: 20 * 255 + 100 * 128, b: 30 * 255 + 50 * 128 }
    );
}

#[test]
fn compositing_leaves_a_trailing_partial_pixel() {
    let mut pixels = vec![200, 100, 50, 128, 77, 66];
    let totals = composite_over_black(&mut pixels);
    assert_eq!(pixels, vec![100, 50, 25, 128, 77, 66]);
    assert_eq!(totals, ChannelTotals { r: 25600, g: 12800, b: 6400 });
}

#[test]
fn compositing_an_empty_buffer_totals_nothing() {
    let mut pixels: Vec<u8> = Vec::new();
    let totals = composite_over_black(&mut pixels);
    assert!(pixels.is_empty());
    assert_eq!(totals, ChannelTotals { r: 0, g: 0, b: 0 });
}

#[test]
fn palette_scale_is_full_weight_times_pixels() {
    assert_eq!(palette_scale(1), 65025);
    assert_eq!(palette_scale(2), 260100);
    assert_eq!(palette_scale(0), 0);
    assert_eq!(palette_scale(u32::MAX), 65025u128 * 4294967295 * 4294967295);
}

#[test]
fn opaque_tile_averages_to_its_colour() {
    let tile = summarize_tile(solid(2, 2, [255, 0, 0, 255]), 2).unwrap();
    let totals = tile.totals();
    assert_eq!(totals.r, palette_scale(2));
    assert_eq!(totals.g, 0);
    assert_eq!(totals.b, 0);
}

#[test]
fn tile_of_its_own_size_is_composited_as_it_is() {
    let bytes = vec![
        10, 20, 30, 255, 200, 100, 50, 128, //
        1, 2, 3, 255, 255, 255, 255, 0,
    ];
    let image = TileImage::new(2, 2, bytes).unwrap();
    let tile = summarize_tile(image, 2).unwrap();
    assert_eq!(tile.side(), 2);
    assert_eq!(
        tile.pixels(),
        &vec![10, 20, 30, 255, 100, 50, 25, 128, 1, 2, 3, 255, 0, 0, 0, 0]
    );
    assert_eq!(
        tile.totals(),
        ChannelTotals {
            r: 10 * 255 + 200 * 128 + 255,
            g: 20 * 255 + 100 * 128 + 2 * 255,
            b: 30 * 255 + 50 * 128 + 3 * 255,
        }
    );
}

#[test]
fn summarized_tile_has_side_squared_pixels() {
    for side in [1u32, 2, 3, 5, 8] {
        let tile = summarize_tile(solid(7, 4, [90, 80, 70, 255]), side).unwrap();
        assert_eq!(tile.side(), side);
        assert_eq!(tile.pixels().len(), (side * side * 4) as usize);
    }
}

#[test]
fn resampling_changes_the_pixel_count() {
    let tile = summarize_tile(solid(4, 4, [90, 80, 70, 255]), 2).unwrap();
    assert_eq!(tile.pixels().len(), 16);
    let grown = summarize_tile(solid(1, 1, [90, 80, 70, 255]), 3).unwrap();
    assert_eq!(grown.pixels().len(), 36);
}

#[test]
fn image_of_another_shape_becomes_a_full_tile() {
    let tile = summarize_tile(solid(4, 2, [255, 0, 0, 255]), 3).unwrap();
    assert_eq!(tile.side(), 3);
    assert_eq!(tile.pixels().len(), 36);
    let tall = summarize_tile(solid(1, 9, [255, 0, 0, 255]), 5).unwrap();
    assert_eq!(tall.pixels().len(), 100);
}

#[test]
fn resampling_a_solid_opaque_image_keeps_its_colour() {
    let tile = summarize_tile(solid(6, 6, [200, 100, 50, 255]), 3).unwrap();
    for pixel in tile.pixels().chunks(4) {
        assert_eq!(pixel, &[200, 100, 50, 255]);
    }
    assert_eq!(tile.totals(), ChannelTotals { r: 9 * 200 * 255, g: 9 * 100 * 255, b: 9 * 50 * 255 });
}

#[test]
fn image_without_pixels_becomes_a_black_tile() {
    let tile = summarize_tile(TileImage::new(0, 0, Vec::new()).unwrap(), 2).unwrap();
    assert_eq!(tile.pixels(), &vec![0u8; 16]);
    assert_eq!(tile.totals(), ChannelTotals { r: 0, g: 0, b: 0 });
}

#[test]
fn zero_tile_size_is_refused() {
    assert_eq!(summarize_tile(solid(2, 2, [1, 2, 3, 255]), 0).err(), Some(MosaicError::InvalidTileSize));
    assert_eq!(PaletteTile::from_resized(Vec::new(), 0).err(), Some(MosaicError::InvalidTileSize));
    assert_eq!(Palette::new(0).err(), Some(MosaicError::InvalidTileSize));
}

#[test]
fn oversized_tile_is_refused_before_any_allocation() {
    assert_eq!(
        summarize_tile(solid(1, 1, [1, 2, 3, 255]), u32::MAX).err(),
        Some(MosaicError::TooLargeToResample)
    );
}

#[test]
fn resized_buffer_of_the_wrong_length_is_refused() {
    assert_eq!(PaletteTile::from_resized(vec![0; 15], 2).err(), Some(MosaicError::BufferSizeMismatch));
    assert_eq!(PaletteTile::from_resized(vec![0; 17], 2).err(), Some(MosaicError::BufferSizeMismatch));
    assert!(PaletteTile::from_resized(vec![0; 16], 2).is_ok());
}

#[test]
fn image_buffers_must_fit_their_dimensions() {
    assert_eq!(TileImage::new(2, 2, vec![0; 15]).err(), Some(MosaicError::BufferSizeMismatch));
    assert_eq!(Raster::new(2, 2, vec![0; 13]).err(), Some(MosaicError::BufferSizeMismatch));
    assert_eq!(Raster::new(u32::MAX, u32::MAX, Vec::new()).err(), Some(MosaicError::BufferSizeMismatch));
    assert!(TileImage::new(2, 2, vec![0; 16]).is_ok());
    assert!(Raster::new(2, 2, vec![0; 12]).is_ok());
    assert!(Raster::new(0, 9, Vec::new()).is_ok());
}

#[test]
fn raster_gives_pixels_by_column_and_row() {
    let raster = Raster::new(2, 2, vec![1, 2, 3, 4, 5, 6, 7, 8, 9, 10, 11, 12]).unwrap();
    assert_eq!(raster.width(), 2);
    assert_eq!(raster.height(), 2);
    assert_eq!(raster.pixel_count(), 4);
    assert_eq!(raster.pixel(0, 0), Some(Rgb { r: 1, g: 2, b: 3 }));
    assert_eq!(raster.pixel(1, 0), Some(Rgb { r: 4, g: 5, b: 6 }));
    assert_eq!(raster.pixel(0, 1), Some(Rgb { r: 7, g: 8, b: 9 }));
    assert_eq!(raster.pixel(1, 1), Some(Rgb { r: 10, g: 11, b: 12 }));
    assert_eq!(raster.pixel(2, 0), None);
    assert_eq!(raster.pixel(0, 2), None);
    assert_eq!(raster.into_pixels(), vec![1, 2, 3, 4, 5, 6, 7, 8, 9, 10, 11, 12]);
}

#[test]
fn palette_numbers_tiles_in_the_order_added() {
    let mut palette = Palette::new(2).unwrap();
    assert_eq!(palette.len(), 0);
    assert_eq!(palette.tile_size(), 2);
    assert_eq!(palette.push_image(solid(2, 2, [255, 0, 0, 255])), Ok(0));
    assert_eq!(palette.push_image(solid(2, 2, [0, 0, 255, 255])), Ok(1));
    assert_eq!(palette.len(), 2);
    assert_eq!(palette.tile(0).unwrap().pixels()[0..3], [255, 0, 0]);
    assert_eq!(palette.tile(1).unwrap().pixels()[0..3], [0, 0, 255]);
    assert!(palette.tile(2).is_none());
}

#[test]
fn palette_refuses_a_tile_of_another_size() {
    let mut palette = Palette::new(2).unwrap();
    let tile = PaletteTile::from_resized(vec![0; 36], 3).unwrap();
    assert_eq!(palette.push(tile), Err(MosaicError::BufferSizeMismatch));
    assert_eq!(palette.len(), 0);
}

#[test]
fn every_error_has_its_message() {
    assert_eq!(MosaicError::InvalidTileSize.message(), "tile size cannot be zero");
    assert_eq!(MosaicError::EmptyPalette.message(), "palette contains no usable tile");
    let all = [
        MosaicError::InvalidTileSize,
        MosaicError::TooLargeToResample,
        MosaicError::BufferSizeMismatch,
        MosaicError::ResampleFailed,
        MosaicError::QuantizeFailed,
        MosaicError::EmptyPalette,
        MosaicError::TileOutOfRange,
        MosaicError::OutputTooLarge,
        MosaicError::NoPendingQuery,
        MosaicError::Incomplete,
    ];
    for (i, a) in all.iter().enumerate() {
        assert!(!a.message().is_empty());
        for b in all.iter().skip(i + 1) {
            assert_ne!(a.message(), b.message());
        }
    }
}

#[test]
fn palette_takes_the_common_raster_formats() {
    for extension in ["avif", "jpeg", "jpg", "png", "webp"] {
        assert!(accepts_extension(extension));
    }
}

#[test]
fn palette_skips_other_extensions() {
    for extension in ["", "PNG", "Jpg", "gif", "bmp", "pn", "pngx", "jpeg ", ".png", "tiff"] {
        assert!(!accepts_extension(extension));
    }
}
