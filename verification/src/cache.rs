//! The lookup cache: which tile was chosen for each colour seen so far.

use vstd::prelude::*;
use foldhash::fast::RandomState;
use foldhash::HashMapExt;
use std::collections::HashMap;
use crate::pixel::Rgb;

verus! {

/// The hasher state of `foldhash`, carried inside the cache's map.
#[verifier::external_type_specification]
#[verifier::external_body]
pub struct ExRandomState(RandomState);

/// The number of distinct colours there are: no cache can hold more.
pub const COLOR_COUNT: usize = 16_777_216;

/// An empty `foldhash` map from packed colours to tile numbers, made by
/// `foldhash::HashMapExt::with_capacity`.
///
/// Trusted, not proved: the new map is empty. The capacity is kept within
/// the number of colours so that the allocation's size cannot overflow.
#[verifier::external_body]
fn map_with_capacity(capacity: usize) -> (made: HashMap<u32, usize, RandomState>)
    requires
        capacity <= COLOR_COUNT,
    ensures
        forall|key: u32| !made@.contains_key(key),
{
    foldhash::HashMap::with_capacity(capacity)
}

/// `HashMap::get` on a map hashed by `foldhash`.
///
/// Trusted, not proved: the map answers with the value stored under the
/// key, or with nothing where the key is absent. This rests on the hasher:
/// a `foldhash` `RandomState` keeps its seed for as long as the map lives,
/// so a key hashes alike every time.
#[verifier::external_body]
fn map_get(map: &HashMap<u32, usize, RandomState>, key: u32) -> (found: Option<usize>)
    ensures
        found == (if map@.contains_key(key) {
            Some(map@[key])
        } else {
            None
        }),
{
    match map.get(&key) {
        Some(value) => Some(*value),
        None => None,
    }
}

/// `HashMap::insert` on a map hashed by `foldhash`.
///
/// Trusted, not proved: afterwards the key maps to the value and every
/// other key is as it was. This rests on the hasher as `map_get` does.
#[verifier::external_body]
fn map_insert(map: &mut HashMap<u32, usize, RandomState>, key: u32, value: usize)
    ensures
        final(map)@ == old(map)@.insert(key, value),
{
    map.insert(key, value);
}

/// Distinct colours pack to distinct keys.
pub proof fn lemma_pack_injective(a: Rgb, b: Rgb)
    ensures
        a.packed() == b.packed() <==> a == b,
{
}

/// The tile chosen for each exact colour met so far. Entries are added and
/// never changed or dropped: a colour, once resolved, keeps its tile.
pub struct LookupCache {
    map: HashMap<u32, usize, RandomState>,
}

impl View for LookupCache {
    type V = Map<Rgb, usize>;

    closed spec fn view(&self) -> Map<Rgb, usize> {
        Map::new(
            |color: Rgb| self.map@.contains_key(color.packed()),
            |color: Rgb| self.map@[color.packed()],
        )
    }
}

impl LookupCache {
    /// An empty cache with room for about `capacity` colours.
    pub fn with_capacity(capacity: usize) -> (cache: LookupCache)
        ensures
            cache@ == Map::<Rgb, usize>::empty(),
    {
        let room: usize = if capacity <= COLOR_COUNT {
            capacity
        } else {
            COLOR_COUNT
        };
        let cache = LookupCache { map: map_with_capacity(room) };
        assert(cache@ =~= Map::<Rgb, usize>::empty());
        cache
    }

    /// The tile chosen for `color`, if the colour has been met before.
    pub fn get(&self, color: Rgb) -> (found: Option<usize>)
        ensures
            found == (if self@.contains_key(color) {
                Some(self@[color])
            } else {
                None
            }),
    {
        map_get(&self.map, color.pack())
    }

    /// Records the tile chosen for `color`, unless the colour has its tile
    /// already, and gives back the tile the colour has from now on.
    pub fn record(&mut self, color: Rgb, tile: usize) -> (kept: usize)
        ensures
            final(self)@ == recorded(old(self)@, color, tile),
            kept == final(self)@[color],
    {
        let key: u32 = color.pack();
        match map_get(&self.map, key) {
            Some(known) => known,
            None => {
                map_insert(&mut self.map, key, tile);
                proof {
                    assert forall|other: Rgb| other.packed() == color.packed() implies other
                        == color by {
                        lemma_pack_injective(other, color);
                    }
                    assert(self@ =~= old(self)@.insert(color, tile));
                }
                tile
            },
        }
    }
}

/// What `LookupCache::record` makes of a cache: a colour that has its tile
/// keeps it, a new colour gets the tile given.
pub open spec fn recorded(cache: Map<Rgb, usize>, color: Rgb, tile: usize) -> Map<Rgb, usize> {
    if cache.contains_key(color) {
        cache
    } else {
        cache.insert(color, tile)
    }
}

/// Recording never changes what the cache knew: every colour that had a
/// tile keeps that tile, so the same colour resolves to the same tile for
/// the whole run, and the colour recorded is found from then on.
pub proof fn lemma_recording_only_adds(cache: Map<Rgb, usize>, color: Rgb, tile: usize)
    ensures
        forall|known: Rgb| #[trigger]
            cache.contains_key(known) ==> recorded(cache, color, tile).contains_key(known)
                && recorded(cache, color, tile)[known] == cache[known],
        recorded(cache, color, tile).contains_key(color),
        !cache.contains_key(color) ==> recorded(cache, color, tile)[color] == tile,
        recorded(recorded(cache, color, tile), color, tile) == recorded(cache, color, tile),
{
}

} // verus!
