//! Registers, sets and maps keep what is put into them.

use vstd::prelude::*;
use vstd::std_specs::cmp::{PartialEqSpec, PartialOrdIs, PartialOrdSpec};

use crate::delta::key_set::KeySet;
use crate::deltalake::util::lwwreg::{LWWReg, Validation};
use crate::deltalake::util::table_map::TableMap;
use crate::text;
use crate::types::TableId;

verus! {

/// A register takes a value with a greater marker, together with the marker, and keeps what it
/// holds otherwise.
pub proof fn greater_markers_win<V: PartialEq, M: Ord>(
    state: &mut LWWReg<V, M>,
    after: LWWReg<V, M>,
    val: V,
    marker: M,
)
    requires
        M::obeys_partial_cmp_spec(),
        after == *final(state),
        call_ensures(LWWReg::<V, M>::update, (state, val, marker), ()),
    ensures
        old(state).marker.is_lt(&marker) ==> after.val == val && after.marker == marker,
        !old(state).marker.is_lt(&marker) ==> after.val == old(state).val && after.marker == old(
            state,
        ).marker,
{
}

/// A register holds what it was made with.
pub proof fn registers_hold_what_they_are_made_with<V: PartialEq, M: Ord>(
    val: V,
    marker: M,
    reg: LWWReg<V, M>,
)
    requires
        call_ensures(LWWReg::<V, M>::new, (val, marker), reg),
    ensures
        reg.val == val,
        reg.marker == marker,
{
}

/// A marker is refused exactly if the register holds it for another value.
pub proof fn markers_are_used_once<V: PartialEq, M: Ord>(
    reg: &LWWReg<V, M>,
    val: &V,
    marker: &M,
    result: Result<(), Validation>,
)
    requires
        M::obeys_eq_spec(),
        V::obeys_eq_spec(),
        call_ensures(LWWReg::<V, M>::validate_update, (reg, val, marker), result),
    ensures
        result is Err <==> reg.marker.eq_spec(marker) && !val.eq_spec(&reg.val),
{
}

/// A key that is inserted is in the set from then on, at the end if it is new. No other key comes
/// or goes, and none changes its place.
pub proof fn sets_keep_their_keys(state: &mut KeySet, after: KeySet, key: String, new: bool)
    requires
        after == *final(state),
        call_ensures(KeySet::insert, (state, key), new),
    ensures
        after@.contains(key@),
        new <==> !old(state)@.contains(key@),
        after@.len() == old(state)@.len() + if new {
            1int
        } else {
            0int
        },
        forall|i: int| 0 <= i < old(state)@.len() ==> #[trigger] after@[i] == old(state)@[i],
        new ==> after@.last() == key@,
{
    if new {
        assert(after@[after@.len() - 1] == key@);
    }
}

/// A set tells the keys that it holds.
pub proof fn sets_tell_their_keys(
    set: &KeySet,
    key: &String,
    found: bool,
    empty: bool,
    held: &Vec<String>,
)
    requires
        call_ensures(KeySet::contains, (set, key), found),
        call_ensures(KeySet::is_empty, (set,), empty),
        call_ensures(KeySet::keys, (set,), held),
    ensures
        found <==> exists|i: int| 0 <= i < held@.len() && (#[trigger] held@[i])@ == key@,
        empty <==> held@.len() == 0,
        forall|i: int, j: int|
            0 <= i < j < held@.len() ==> (#[trigger] held@[i])@ != (#[trigger] held@[j])@,
{
    let texts = text::texts(held@);
    assert(texts == set@);
    if found {
        let i = choose|i: int| 0 <= i < texts.len() && texts[i] == key@;
        assert(held@[i]@ == key@);
    }
    if exists|i: int| 0 <= i < held@.len() && (#[trigger] held@[i])@ == key@ {
        let i = choose|i: int| 0 <= i < held@.len() && (#[trigger] held@[i])@ == key@;
        assert(texts[i] == key@);
    }
    assert forall|i: int, j: int| 0 <= i < j < held@.len() implies (#[trigger] held@[i])@ != (
    #[trigger] held@[j])@ by {
        assert(texts[i] != texts[j]);
    }
}

/// The value for a table is the one that was there, or else the given one. What is made of it is
/// there from then on, and the values for other tables stay as they are.
pub proof fn tables_keep_their_values<T>(
    state: &mut TableMap<T>,
    after: TableMap<T>,
    table_id: TableId,
    value: T,
    held: &mut T,
    left: T,
    other: u32,
)
    requires
        after == *final(state),
        left == *final(held),
        call_ensures(TableMap::<T>::or_insert, (state, table_id, value), held),
    ensures
        old(state)@.contains_key(table_id.0) ==> *old(held) == old(state)@[table_id.0],
        !old(state)@.contains_key(table_id.0) ==> *old(held) == value,
        after@.contains_key(table_id.0),
        after@[table_id.0] == left,
        other != table_id.0 ==> {
            &&& after@.contains_key(other) <==> old(state)@.contains_key(other)
            &&& after@.contains_key(other) ==> after@[other] == old(state)@[other]
        },
{
}

/// A map tells the value that it holds for a table.
pub proof fn maps_tell_their_values<T>(map: &TableMap<T>, table_id: TableId, value: Option<&T>)
    requires
        call_ensures(TableMap::<T>::get, (map, table_id), value),
    ensures
        value is Some <==> map@.contains_key(table_id.0),
        value matches Some(v) ==> *v == map@[table_id.0],
{
}

/// A new map holds nothing.
pub proof fn new_maps_hold_nothing<T>(map: TableMap<T>, table: u32)
    requires
        call_ensures(TableMap::<T>::new, (), map),
    ensures
        !map@.contains_key(table),
{
}

} // verus!
