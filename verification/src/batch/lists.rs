//! Lists of values laid out one after the other.

use arrow::array::ArrayData;
use vstd::prelude::*;

use crate::batch::array;
use crate::batch::array::{Item, array_items, array_type, items, offset};
use crate::batch::cells::is_encoded;
use crate::batch::data_type;
use crate::batch::data_type::{Field, TypeView};

verus! {

/// The values of some lists, of which some may be missing, one after the other.
pub open spec fn flat_values<T>(lists: Seq<Option<Vec<Option<T>>>>) -> Seq<Option<T>>
    decreases lists.len(),
{
    if lists.len() == 0 {
        Seq::empty()
    } else {
        flat_values(lists.drop_last()) + match lists.last() {
            Some(list) => list@,
            None => Seq::empty(),
        }
    }
}

/// The elements of the lists among some items, one after the other.
pub open spec fn flat_items(lists: Seq<Item>) -> Seq<Item>
    decreases lists.len(),
{
    if lists.len() == 0 {
        Seq::empty()
    } else {
        flat_items(lists.drop_last()) + match lists.last() {
            Item::List(elements) => elements,
            _ => Seq::empty(),
        }
    }
}

/// The item for a list that may be missing.
pub open spec fn list_item<T>(list: Option<Vec<Option<T>>>, item: spec_fn(T) -> Item) -> Item {
    match list {
        Some(values) => Item::List(items(values@, item)),
        None => Item::Null,
    }
}

/// The items for lists that may be missing.
pub open spec fn list_items<T>(
    lists: Seq<Option<Vec<Option<T>>>>,
    item: spec_fn(T) -> Item,
) -> Seq<Item> {
    Seq::new(lists.len(), |i: int| list_item(lists[i], item))
}

/// How lists lie among values: how long each list is, and whether it is there at all.
pub struct ListLayout<T> {
    /// The lengths of the lists.
    pub lengths: Vec<usize>,
    /// Whether each list is there. A list that is not has no values.
    pub present: Vec<bool>,
    /// The lists.
    pub lists: Ghost<Seq<Option<Vec<Option<T>>>>>,
}

/// The number of values of a list that may be missing.
pub open spec fn list_len<T>(list: Option<Vec<Option<T>>>) -> nat {
    match list {
        Some(values) => values@.len(),
        None => 0,
    }
}

impl<T> ListLayout<T> {
    /// Whether lengths and presence are those of the lists.
    pub open spec fn is_valid(&self) -> bool {
        &&& self.lengths@.len() == self.lists@.len()
        &&& self.present@.len() == self.lists@.len()
        &&& forall|i: int|
            0 <= i < self.lists@.len() ==> #[trigger] self.present@[i] == self.lists@[i] is Some
        &&& forall|i: int|
            0 <= i < self.lists@.len() ==> #[trigger] self.lengths@[i] == list_len(self.lists@[i])
    }

    /// No lists.
    pub(crate) fn new() -> (layout: ListLayout<T>)
        ensures
            layout.is_valid(),
            layout.lists@ == Seq::<Option<Vec<Option<T>>>>::empty(),
    {
        ListLayout { lengths: Vec::new(), present: Vec::new(), lists: Ghost(Seq::empty()) }
    }

    /// Adds a list at the end, and its values at the end of the values.
    pub(crate) fn push(&mut self, list: Option<Vec<Option<T>>>, values: &mut Vec<Option<T>>)
        requires
            old(self).is_valid(),
            old(values)@ == flat_values(old(self).lists@),
        ensures
            final(self).is_valid(),
            final(self).lists@ == old(self).lists@.push(list),
            final(values)@ == flat_values(final(self).lists@),
    {
        let ghost pushed = self.lists@.push(list);
        assert(pushed.drop_last() =~= self.lists@);
        assert(pushed.last() == list);
        match list {
            Some(elements) => {
                let mut elements = elements;
                self.lengths.push(elements.len());
                self.present.push(true);
                values.append(&mut elements);
            },
            None => {
                self.lengths.push(0);
                self.present.push(false);
                assert(values@ + Seq::<Option<T>>::empty() =~= values@);
            },
        }
        proof {
            self.lists@ = pushed;
            assert forall|i: int| 0 <= i < pushed.len() implies #[trigger] self.present@[i]
                == pushed[i] is Some by {
                if i < old(self).lists@.len() {
                    assert(old(self).present@[i] == old(self).lists@[i] is Some);
                }
            }
            assert forall|i: int| 0 <= i < pushed.len() implies #[trigger] self.lengths@[i]
                == list_len(pushed[i]) by {
                if i < old(self).lists@.len() {
                    assert(old(self).lengths@[i] == list_len(old(self).lists@[i]));
                }
            }
        }
    }

    /// The values are the elements of the lists, and every list stands at its offset.
    pub proof fn values_are_elements(self, values: Seq<Option<T>>, item: spec_fn(T) -> Item)
        requires
            self.is_valid(),
            values == flat_values(self.lists@),
        ensures
            items(values, item) == flat_items(list_items(self.lists@, item)),
            offset(self.lengths@, self.lengths@.len()) == values.len(),
            Seq::new(
                self.lengths@.len(),
                |i: int|
                    if self.present@[i] {
                        Item::List(
                            items(values, item).subrange(
                                offset(self.lengths@, i as nat) as int,
                                offset(self.lengths@, i as nat) + self.lengths@[i],
                            ),
                        )
                    } else {
                        Item::Null
                    },
            ) == list_items(self.lists@, item),
    {
        items_of_flat_values(self.lists@, item);
        let n = self.lists@.len();
        assert(self.lists@.take(n as int) =~= self.lists@);
        self.offset_is_position(n);
        assert forall|i: int| 0 <= i < n && self.present@[i] implies Item::List(
            items(values, item).subrange(
                offset(self.lengths@, i as nat) as int,
                offset(self.lengths@, i as nat) + self.lengths@[i],
            ),
        ) == #[trigger] list_items(self.lists@, item)[i] by {
            self.list_stands_at_offset(values, i);
            let list = self.lists@[i]->0;
            let start = offset(self.lengths@, i as nat) as int;
            let end = start + self.lengths@[i];
            assert(items(values, item).subrange(start, end) =~= items(list@, item)) by {
                assert forall|k: int| 0 <= k < list@.len() implies #[trigger] items(
                    values,
                    item,
                ).subrange(start, end)[k] == items(list@, item)[k] by {
                    assert(values.subrange(start, end)[k] == values[start + k]);
                }
            }
        }
        assert(Seq::new(
            self.lengths@.len(),
            |i: int|
                if self.present@[i] {
                    Item::List(
                        items(values, item).subrange(
                            offset(self.lengths@, i as nat) as int,
                            offset(self.lengths@, i as nat) + self.lengths@[i],
                        ),
                    )
                } else {
                    Item::Null
                },
        ) =~= list_items(self.lists@, item));
    }

    proof fn list_stands_at_offset(self, values: Seq<Option<T>>, i: int)
        requires
            self.is_valid(),
            values == flat_values(self.lists@),
            0 <= i < self.lists@.len(),
            self.lists@[i] is Some,
        ensures
            offset(self.lengths@, i as nat) + self.lengths@[i] <= values.len(),
            values.subrange(
                offset(self.lengths@, i as nat) as int,
                offset(self.lengths@, i as nat) + self.lengths@[i],
            ) == self.lists@[i]->0@,
    {
        let before = flat_values(self.lists@.take(i));
        let with = flat_values(self.lists@.take(i + 1));
        let list = self.lists@[i]->0;
        self.offset_is_position(i as nat);
        assert(self.lists@.take(i + 1).drop_last() =~= self.lists@.take(i));
        assert(with == before + list@);
        assert(self.lengths@[i] == list_len(self.lists@[i]));
        flat_values_of_prefix(self.lists@, i + 1);
        assert forall|k: int| 0 <= k < list@.len() implies values[before.len() + k] == list@[k] by {
            assert(values.take(with.len() as int)[before.len() + k] == with[before.len() + k]);
        }
        assert(values.subrange(before.len() as int, with.len() as int) =~= list@);
    }

    proof fn offset_is_position(self, n: nat)
        requires
            self.is_valid(),
            n <= self.lists@.len(),
        ensures
            offset(self.lengths@, n) == flat_values(self.lists@.take(n as int)).len(),
        decreases n,
    {
        if n > 0 {
            self.offset_is_position((n - 1) as nat);
            assert(self.lists@.take(n as int).drop_last() =~= self.lists@.take(n - 1));
            assert(self.lengths@[n - 1] == list_len(self.lists@[n - 1]));
        }
    }
}

proof fn flat_values_of_prefix<T>(lists: Seq<Option<Vec<Option<T>>>>, n: int)
    requires
        0 <= n <= lists.len(),
    ensures
        flat_values(lists.take(n)).len() <= flat_values(lists).len(),
        flat_values(lists).take(flat_values(lists.take(n)).len() as int) == flat_values(
            lists.take(n),
        ),
    decreases lists.len(),
{
    if n == lists.len() {
        assert(lists.take(n) =~= lists);
        assert(flat_values(lists).take(flat_values(lists).len() as int) =~= flat_values(lists));
    } else {
        let rest = lists.drop_last();
        flat_values_of_prefix(rest, n);
        assert(rest.take(n) =~= lists.take(n));
        let prefix = flat_values(lists.take(n));
        assert(flat_values(lists).take(prefix.len() as int) =~= flat_values(rest).take(
            prefix.len() as int,
        ));
    }
}

/// The items of the values of some lists are the elements of the items of the lists.
pub proof fn items_of_flat_values<T>(lists: Seq<Option<Vec<Option<T>>>>, item: spec_fn(T) -> Item)
    ensures
        items(flat_values(lists), item) == flat_items(list_items(lists, item)),
    decreases lists.len(),
{
    if lists.len() == 0 {
        assert(items(flat_values(lists), item) =~= flat_items(list_items(lists, item)));
    } else {
        let rest = lists.drop_last();
        items_of_flat_values(rest, item);
        assert(list_items(lists, item).drop_last() =~= list_items(rest, item));
        assert(list_items(lists, item).last() == list_item(lists.last(), item));
        assert(items(flat_values(lists), item) =~= flat_items(list_items(lists, item)));
    }
}

/// An array of the lists, with the values in an array of their own.
pub(crate) fn finish_lists<T>(
    field: &Field,
    layout: ListLayout<T>,
    values: ArrayData,
    item: Ghost<spec_fn(T) -> Item>,
) -> (array: ArrayData)
    requires
        layout.is_valid(),
        array_type(values) == field@.data_type,
        is_encoded(array_type(values)),
        array_items(values) == items(flat_values(layout.lists@), item@),
        array_items(values).len() <= i32::MAX,
        field@.nullable || !array_items(values).contains(Item::Null),
    ensures
        array_type(array) == TypeView::List(Box::new(field@)),
        array_items(array) == list_items(layout.lists@, item@),
{
    proof {
        layout.values_are_elements(flat_values(layout.lists@), item@);
    }
    array::list_array(data_type::arrow_field(field), layout.lengths, layout.present, values)
}

} // verus!
