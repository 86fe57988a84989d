use tessera::cache::LookupCache;
use tessera::error::MosaicError;
use tessera::index::IndexBounds;
use tessera::pixel::Rgb;

#[test]
fn index_over_no_colour_is_refused() {
    assert_eq!(IndexBounds::build(0).err(), Some(MosaicError::EmptyPalette));
}

#[test]
fn index_over_one_colour_resolves_only_to_the_first_tile() {
    let bounds = IndexBounds::build(1).unwrap();
    assert_eq!(bounds.colors(), 1);
    assert_eq!(bounds.resolve(0), Ok(0));
    for item in [1u64, 2, 255, u64::MAX] {
        assert_eq!(bounds.resolve(item), Err(MosaicError::TileOutOfRange));
    }
}

#[test]
fn answers_resolve_to_tiles_within_the_palette() {
    let bounds = IndexBounds::build(3).unwrap();
    assert_eq!(bounds.resolve(0), Ok(0));
    assert_eq!(bounds.resolve(2), Ok(2));
    assert_eq!(bounds.resolve(3), Err(MosaicError::TileOutOfRange));
}

#[test]
fn new_cache_holds_nothing() {
    let cache = LookupCache::with_capacity(8);
    assert_eq!(cache.get(Rgb { r: 0, g: 0, b: 0 }), None);
    assert_eq!(cache.get(Rgb { r: 255, g: 255, b: 255 }), None);
}

#[test]
fn cache_room_beyond_all_colours_is_capped() {
    let mut cache = LookupCache::with_capacity(usize::MAX);
    cache.record(Rgb { r: 1, g: 2, b: 3 }, 4);
    assert_eq!(cache.get(Rgb { r: 1, g: 2, b: 3 }), Some(4));
}

#[test]
fn recorded_colour_is_found_with_its_tile() {
    let mut cache = LookupCache::with_capacity(0);
    let red = Rgb { r: 255, g: 0, b: 0 };
    cache.record(red, 7);
    assert_eq!(cache.get(red), Some(7));
    assert_eq!(cache.get(red), Some(7));
}

#[test]
fn recorded_colour_keeps_its_first_tile() {
    let mut cache = LookupCache::with_capacity(2);
    let red = Rgb { r: 255, g: 0, b: 0 };
    assert_eq!(cache.record(red, 7), 7);
    assert_eq!(cache.record(red, 9), 7);
    assert_eq!(cache.get(red), Some(7));
}

#[test]
fn near_duplicate_colours_are_kept_apart() {
    let mut cache = LookupCache::with_capacity(4);
    cache.record(Rgb { r: 10, g: 20, b: 30 }, 1);
    assert_eq!(cache.get(Rgb { r: 10, g: 20, b: 31 }), None);
    assert_eq!(cache.get(Rgb { r: 30, g: 20, b: 10 }), None);
    assert_eq!(cache.get(Rgb { r: 20, g: 10, b: 30 }), None);
    cache.record(Rgb { r: 10, g: 20, b: 31 }, 2);
    assert_eq!(cache.get(Rgb { r: 10, g: 20, b: 30 }), Some(1));
    assert_eq!(cache.get(Rgb { r: 10, g: 20, b: 31 }), Some(2));
}

#[test]
fn colours_pack_red_first() {
    assert_eq!(Rgb { r: 1, g: 2, b: 3 }.pack(), 0x010203);
    assert_eq!(Rgb { r: 255, g: 255, b: 255 }.pack(), 0xffffff);
    assert_eq!(Rgb { r: 0, g: 0, b: 0 }.pack(), 0);
}
