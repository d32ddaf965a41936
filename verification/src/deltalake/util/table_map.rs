//! Values for tables, found by the numbers of the tables.

use dashmap::DashMap;
use vstd::prelude::*;

use crate::types::TableId;

verus! {

/// Declares `dashmap::DashMap`, a map.
#[verifier::external_type_specification]
#[verifier::external_body]
#[verifier::reject_recursive_types(K)]
#[verifier::reject_recursive_types(V)]
#[verifier::reject_recursive_types(S)]
pub struct ExDashMap<K, V, S>(DashMap<K, V, S>);

/// The places that a map holds.
pub uninterp spec fn places_held(map: DashMap<u32, usize>) -> Map<u32, usize>;

/// Calls `DashMap::new`: a map that holds nothing.
#[verifier::external_body]
fn no_places() -> (map: DashMap<u32, usize>)
    ensures
        places_held(map).is_empty(),
{
    DashMap::new()
}

/// Calls `DashMap::get`: the value that the map holds for a key, if it holds one.
#[verifier::external_body]
fn place_of(map: &DashMap<u32, usize>, key: u32) -> (place: Option<usize>)
    ensures
        place == if places_held(*map).contains_key(key) {
            Some(places_held(*map)[key])
        } else {
            None
        },
{
    map.get(&key).map(|place| *place)
}

/// Calls `DashMap::entry` and `Entry::or_insert`: the value that the map holds for a key. Where
/// it holds none, it holds the given value from then on.
#[verifier::external_body]
fn place_or_insert(map: &mut DashMap<u32, usize>, key: u32, place: usize) -> (held: usize)
    ensures
        places_held(*final(map)) == if places_held(*old(map)).contains_key(key) {
            places_held(*old(map))
        } else {
            places_held(*old(map)).insert(key, place)
        },
        held == places_held(*final(map))[key],
{
    *map.entry(key).or_insert(place)
}

/// Values for tables.
pub struct TableMap<T> {
    values: Vec<T>,
    places: DashMap<u32, usize>,
}

impl<T> View for TableMap<T> {
    type V = Map<u32, T>;

    closed spec fn view(&self) -> Map<u32, T> {
        places_held(self.places).map_values(|place: usize| self.values@[place as int])
    }
}

impl<T> TableMap<T> {
    /// Whether every table has a place of its own.
    pub closed spec fn wf(&self) -> bool {
        let held = places_held(self.places);
        &&& forall|id: u32| #[trigger]
            held.contains_key(id) ==> held[id] < self.values@.len()
        &&& forall|a: u32, b: u32| #[trigger]
            held.contains_key(a) && #[trigger] held.contains_key(b) && held[a] == held[b] ==> a == b
    }

    /// No values.
    pub fn new() -> (map: Self)
        ensures
            map.wf(),
            map@ == Map::<u32, T>::empty(),
    {
        let map = TableMap { values: Vec::new(), places: no_places() };
        assert(map@ =~= Map::<u32, T>::empty());
        map
    }

    /// The value for a table, if there is one.
    pub fn get(&self, table_id: TableId) -> (value: Option<&T>)
        requires
            self.wf(),
        ensures
            match value {
                Some(v) => self@.contains_key(table_id.0) && *v == self@[table_id.0],
                None => !self@.contains_key(table_id.0),
            },
    {
        match place_of(&self.places, table_id.0) {
            Some(place) => Some(&self.values[place]),
            None => None,
        }
    }

    /// The value for a table. Where there is none, it is the given value from then on.
    pub fn or_insert(&mut self, table_id: TableId, value: T) -> (held: &mut T)
        requires
            old(self).wf(),
        ensures
            final(self).wf(),
            *held == if old(self)@.contains_key(table_id.0) {
                old(self)@[table_id.0]
            } else {
                value
            },
            final(self)@ == old(self)@.insert(table_id.0, *final(held)),
    {
        let ghost before = places_held(self.places);
        let next: usize = self.values.len();
        let place: usize = place_or_insert(&mut self.places, table_id.0, next);
        if place == next {
            assert(!before.contains_key(table_id.0));
            self.values.push(value);
        }
        &mut self.values[place]
    }
}

} // verus!
