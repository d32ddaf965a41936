//! Events as the rows to delete and the rows to write.

use vstd::prelude::*;
use vstd::std_specs::cmp::PartialOrdIs;

use crate::deltalake::expr;
use crate::deltalake::expr::{
    Expr, ExprView, build_pk_expr, expr_views, has_primary_key, key_can_be_stored, key_converts,
    key_fits, row_predicate,
};
use crate::deltalake::util::lwwreg;
use crate::deltalake::util::lwwreg::LWWReg;
use crate::error::{EtlError, EtlResult, ErrorKind};
use crate::text;
use crate::types::{Event, TableRow, TableSchema};

verus! {

broadcast use text::take_one_more;

/// A place in the log: where a transaction commits, and where an event of it stands.
pub type Marker = (u64, u64);

/// What happens to a row.
#[derive(Debug, Clone, PartialEq)]
pub enum RowOp<'a> {
    /// The row is written.
    Upsert(&'a TableRow),
    /// The row is removed.
    Delete,
}

/// What happens to a row, in the model.
pub enum Operation {
    /// The row is written.
    Upsert(TableRow),
    /// The row is removed.
    Delete,
}

/// A change to a table.
pub struct Change {
    /// A row with the primary key of the row that changes.
    pub row: TableRow,
    /// What happens to the row.
    pub op: Operation,
    /// Where the change stands.
    pub marker: Marker,
}

/// The latest change to a row.
pub struct Entry {
    /// The predicate that picks the row.
    pub key: ExprView,
    /// What happens to the row.
    pub op: Operation,
    /// Where the change stands.
    pub marker: Marker,
}

/// The change that an event makes. An append-only table has no updates and no deletions. A
/// deletion without the removed row changes nothing.
pub open spec fn event_change(event: Event, append_only: bool) -> Option<Change> {
    match event {
        Event::Insert(e) => Some(
            Change {
                row: e.table_row,
                op: Operation::Upsert(e.table_row),
                marker: (e.commit_lsn.0, e.start_lsn.0),
            },
        ),
        Event::Update(e) => if append_only {
            None
        } else {
            Some(
                Change {
                    row: e.table_row,
                    op: Operation::Upsert(e.table_row),
                    marker: (e.commit_lsn.0, e.start_lsn.0),
                },
            )
        },
        Event::Delete(e) => match e.old_table_row {
            Some((_, row)) if !append_only => Some(
                Change {
                    row,
                    op: Operation::Delete,
                    marker: (e.commit_lsn.0, e.start_lsn.0),
                },
            ),
            _ => None,
        },
        _ => None,
    }
}

/// The changes that events make, in order.
pub open spec fn changes(events: Seq<Event>, append_only: bool) -> Seq<Change>
    decreases events.len(),
{
    if events.len() == 0 {
        Seq::empty()
    } else {
        let before = changes(events.drop_last(), append_only);
        match event_change(events.last(), append_only) {
            Some(change) => before.push(change),
            None => before,
        }
    }
}

/// Whether one place in the log stands before another: by the commit first, and by the event
/// within a commit.
pub open spec fn is_before(left: Marker, right: Marker) -> bool {
    left.0 < right.0 || (left.0 == right.0 && left.1 < right.1)
}

/// The place of the entry with a key, or the number of entries if there is none.
pub open spec fn position(entries: Seq<Entry>, key: ExprView) -> nat
    decreases entries.len(),
{
    if entries.len() == 0 {
        0
    } else {
        let before = position(entries.drop_last(), key);
        if before < entries.len() - 1 || entries.last().key == key {
            before
        } else {
            entries.len()
        }
    }
}

/// The entries after a change to the row with a key: the change stays if it stands behind the
/// change that was recorded so far.
pub open spec fn recorded(
    entries: Seq<Entry>,
    key: ExprView,
    op: Operation,
    marker: Marker,
) -> Seq<Entry> {
    let at = position(entries, key) as int;
    if at >= entries.len() {
        entries.push(Entry { key, op, marker })
    } else if is_before(entries[at].marker, marker) {
        entries.update(at, Entry { key, op, marker })
    } else {
        entries
    }
}

/// The predicate that picks the row of a change.
pub open spec fn change_key(table_schema: TableSchema, change: Change) -> ExprView {
    row_predicate(table_schema.column_schemas@, change.row)->0
}

/// The entries after some changes.
pub open spec fn registry(table_schema: TableSchema, changes: Seq<Change>) -> Seq<Entry>
    decreases changes.len(),
{
    if changes.len() == 0 {
        Seq::empty()
    } else {
        let change = changes.last();
        recorded(
            registry(table_schema, changes.drop_last()),
            change_key(table_schema, change),
            change.op,
            change.marker,
        )
    }
}

/// The keys of the rows that are removed.
pub open spec fn deleted_keys(entries: Seq<Entry>) -> Seq<ExprView>
    decreases entries.len(),
{
    if entries.len() == 0 {
        Seq::empty()
    } else {
        let before = deleted_keys(entries.drop_last());
        match entries.last().op {
            Operation::Delete => before.push(entries.last().key),
            Operation::Upsert(_) => before,
        }
    }
}

/// The rows that are written.
pub open spec fn upserted_rows(entries: Seq<Entry>) -> Seq<TableRow>
    decreases entries.len(),
{
    if entries.len() == 0 {
        Seq::empty()
    } else {
        let before = upserted_rows(entries.drop_last());
        match entries.last().op {
            Operation::Delete => before,
            Operation::Upsert(row) => before.push(row),
        }
    }
}

/// Whether there is a predicate for the row of a change.
pub open spec fn has_key(table_schema: TableSchema, change: Change) -> bool {
    &&& has_primary_key(table_schema.column_schemas@)
    &&& key_converts(table_schema.column_schemas@, change.row.values@)
}

/// Whether there is a predicate for the row of each change.
pub open spec fn have_keys(table_schema: TableSchema, changes: Seq<Change>) -> bool {
    forall|i: int| 0 <= i < changes.len() ==> has_key(table_schema, #[trigger] changes[i])
}

/// Whether the cells of the primary key of each changed row are there and can be stored.
pub open spec fn keys_fit(table_schema: TableSchema, changes: Seq<Change>) -> bool {
    forall|i: int|
        0 <= i < changes.len() ==> key_fits(
            table_schema.column_schemas@,
            (#[trigger] changes[i]).row.values@,
        )
}

/// Whether an error tells why there is no predicate for some row of a table.
pub open spec fn is_key_error(error: EtlError, table_schema: TableSchema) -> bool {
    if has_primary_key(table_schema.column_schemas@) {
        error.is(ErrorKind::ConversionError, "Failed to convert row to Arrow array"@)
            && error.detail is Some
    } else {
        error.is_with(
            ErrorKind::MissingTableSchema,
            "Table has no primary key columns"@,
            table_schema.name.text(),
        )
    }
}

/// The rows behind some references.
pub open spec fn rows_of(rows: Seq<&TableRow>) -> Seq<TableRow> {
    Seq::new(rows.len(), |i: int| *rows[i])
}

/// What happens to a row, in the model.
pub open spec fn operation(op: RowOp<'_>) -> Operation {
    match op {
        RowOp::Upsert(row) => Operation::Upsert(*row),
        RowOp::Delete => Operation::Delete,
    }
}

spec fn entry(pair: (Expr, LWWReg<RowOp<'_>, Marker>)) -> Entry {
    Entry { key: pair.0@, op: operation(pair.1.val), marker: pair.1.marker }
}

spec fn entries(pairs: Seq<(Expr, LWWReg<RowOp<'_>, Marker>)>) -> Seq<Entry> {
    Seq::new(pairs.len(), |i: int| entry(pairs[i]))
}

/// Whether a key is the predicate for a row of a table.
spec fn is_row_key(table_schema: TableSchema, key: ExprView) -> bool {
    exists|row: TableRow|
        key_converts(table_schema.column_schemas@, row.values@) && #[trigger] row_predicate(
            table_schema.column_schemas@,
            row,
        ) == Some(key)
}

proof fn row_keys_are_comparable(table_schema: TableSchema, left: ExprView, right: ExprView)
    requires
        is_row_key(table_schema, left),
        is_row_key(table_schema, right),
    ensures
        expr::comparable(left, right),
{
    let columns = table_schema.column_schemas@;
    let a = choose|row: TableRow|
        key_converts(columns, row.values@) && #[trigger] row_predicate(columns, row) == Some(left);
    let b = choose|row: TableRow|
        key_converts(columns, row.values@) && #[trigger] row_predicate(columns, row) == Some(right);
    expr::predicates_are_comparable(columns, a.values@, b.values@, columns.len());
}

/// The entry that is found has the key, and no entry before it has.
proof fn position_is_first(entries: Seq<Entry>, key: ExprView)
    ensures
        position(entries, key) <= entries.len(),
        position(entries, key) < entries.len() ==> entries[position(entries, key) as int].key == key,
        forall|i: int|
            0 <= i < position(entries, key) ==> (#[trigger] entries[i]).key != key,
    decreases entries.len(),
{
    if entries.len() > 0 {
        let before = entries.drop_last();
        position_is_first(before, key);
        assert forall|i: int| 0 <= i < position(entries, key) implies (
        #[trigger] entries[i]).key != key by {
            if i < before.len() {
                assert(before[i] == entries[i]);
            }
        }
        if position(before, key) < before.len() {
            assert(before[position(before, key) as int] == entries[position(before, key) as int]);
        }
    }
}

/// An entry with the key that no earlier entry has is the one that is found.
proof fn position_is(entries: Seq<Entry>, key: ExprView, at: int)
    requires
        0 <= at <= entries.len(),
        at < entries.len() ==> entries[at].key == key,
        forall|i: int| 0 <= i < at ==> (#[trigger] entries[i]).key != key,
    ensures
        position(entries, key) == at,
{
    position_is_first(entries, key);
    let found = position(entries, key) as int;
    if found < at {
        assert(entries[found].key != key);
    }
    if at < found {
        assert(entries[at].key != key);
    }
}

/// A change to the row with a key, recorded in a registry of the latest changes.
fn record<'a>(
    pairs: &mut Vec<(Expr, LWWReg<RowOp<'a>, Marker>)>,
    key: Expr,
    op: RowOp<'a>,
    marker: Marker,
)
    requires
        forall|i: int|
            0 <= i < old(pairs)@.len() ==> expr::comparable(
                (#[trigger] old(pairs)@[i]).0@,
                key@,
            ),
    ensures
        entries(final(pairs)@) == recorded(entries(old(pairs)@), key@, operation(op), marker),
{
    let ghost before = entries(pairs@);
    let ghost view = key@;
    let mut i: usize = 0;
    while i < pairs.len()
        invariant
            i <= pairs@.len(),
            before == entries(pairs@),
            *pairs == *old(pairs),
            view == key@,
            forall|k: int|
                0 <= k < pairs@.len() ==> expr::comparable((#[trigger] pairs@[k]).0@, key@),
            forall|k: int| 0 <= k < i ==> (#[trigger] before[k]).key != view,
        decreases pairs@.len() - i,
    {
        if pairs[i].0.same(&key) {
            proof {
                assert(before[i as int].key == view);
                position_is(before, view, i as int);
                assert(pairs@[i as int].1.marker.is_lt(&marker) == is_before(
                    pairs@[i as int].1.marker,
                    marker,
                ));
            }
            let ghost register = pairs@[i as int].1;
            pairs[i].1.update(op, marker);
            proof {
                assert(pairs@[i as int].1 == lwwreg::written(register, op, marker));
                assert(entries(pairs@) =~= recorded(before, view, operation(op), marker));
            }
            return;
        }
        assert(before[i as int].key != view);
        i += 1;
    }
    proof {
        position_is(before, view, i as int);
    }
    pairs.push((key, LWWReg::new(op, marker)));
    assert(entries(pairs@) =~= recorded(before, view, operation(op), marker));
}

/// The predicate for a row of a table.
fn build_row_key(table_schema: &TableSchema, row: &TableRow) -> (key: EtlResult<Expr>)
    requires
        key_fits(table_schema.column_schemas@, row.values@),
    ensures
        key is Ok <==> has_primary_key(table_schema.column_schemas@) && key_converts(
            table_schema.column_schemas@,
            row.values@,
        ),
        key matches Ok(k) ==> row_predicate(table_schema.column_schemas@, *row) == Some(k@),
        key matches Err(error) ==> is_key_error(error, *table_schema),
{
    let columns = &table_schema.column_schemas;
    let mut i: usize = 0;
    while i < columns.len()
        invariant
            i <= columns@.len(),
            columns@ == table_schema.column_schemas@,
            key_fits(columns@, row.values@),
            forall|k: int| 0 <= k < i ==> !(#[trigger] columns@[k]).primary,
        decreases columns@.len() - i,
    {
        if columns[i].primary {
            assert(has_primary_key(columns@));
            return build_pk_expr(table_schema, row);
        }
        i += 1;
    }
    Err(
        EtlError::with_detail(
            ErrorKind::MissingTableSchema,
            "Table has no primary key columns",
            table_schema.name.to_text(),
        ),
    )
}

/// The change that an event makes: a row with the primary key, what happens, and where.
pub(crate) fn change_of(event: &Event, is_append_only: bool) -> (change: Option<
    (&TableRow, RowOp<'_>, Marker),
>)
    ensures
        match (change, event_change(*event, is_append_only)) {
            (Some((row, op, marker)), Some(expected)) => expected == (Change {
                row: *row,
                op: operation(op),
                marker,
            }),
            (None, None) => true,
            _ => false,
        },
{
    match event {
        Event::Insert(e) => Some(
            (&e.table_row, RowOp::Upsert(&e.table_row), (e.commit_lsn.0, e.start_lsn.0)),
        ),
        Event::Update(e) => {
            if is_append_only {
                return None;
            }
            Some((&e.table_row, RowOp::Upsert(&e.table_row), (e.commit_lsn.0, e.start_lsn.0)))
        },
        Event::Delete(e) => {
            if is_append_only {
                return None;
            }
            match &e.old_table_row {
                Some((_, old_row)) => Some(
                    (old_row, RowOp::Delete, (e.commit_lsn.0, e.start_lsn.0)),
                ),
                None => None,
            }
        },
        Event::Truncate(_)
        | Event::Relation(_)
        | Event::Begin(_)
        | Event::Commit(_)
        | Event::Unsupported => None,
    }
}

/// The predicates of the rows to delete, and the rows to write.
fn split_registry<'a>(pairs: Vec<(Expr, LWWReg<RowOp<'a>, Marker>)>) -> (split: (
    Vec<Expr>,
    Vec<&'a TableRow>,
))
    ensures
        expr_views(split.0@) == deleted_keys(entries(pairs@)),
        rows_of(split.1@) == upserted_rows(entries(pairs@)),
{
    let ghost whole = entries(pairs@);
    let mut delete_predicates: Vec<Expr> = Vec::new();
    let mut upsert_rows: Vec<&TableRow> = Vec::new();
    proof {
        assert(whole.take(0) =~= Seq::empty());
        assert(expr_views(delete_predicates@) =~= Seq::empty());
        assert(rows_of(upsert_rows@) =~= Seq::empty());
    }
    for pair in it: pairs
        invariant
            whole == entries(it.seq()),
            expr_views(delete_predicates@) == deleted_keys(whole.take(it.index() as int)),
            rows_of(upsert_rows@) == upserted_rows(whole.take(it.index() as int)),
    {
        let ghost n = it.index() as int;
        let ghost keys = delete_predicates@;
        let ghost rows = upsert_rows@;
        assert(whole[n] == entry(pair));
        assert(whole.take(n + 1).drop_last() =~= whole.take(n));
        match pair.1.val {
            RowOp::Delete => {
                let ghost key = pair.0@;
                delete_predicates.push(pair.0);
                assert(expr_views(delete_predicates@) =~= expr_views(keys).push(key));
            },
            RowOp::Upsert(row) => {
                upsert_rows.push(row);
                assert(rows_of(upsert_rows@) =~= rows_of(rows).push(*row));
            },
        }
    }
    assert(whole.take(whole.len() as int) =~= whole);
    (delete_predicates, upsert_rows)
}

/// The predicates of the rows to delete, and the rows to write, for the events of a table. Of the
/// changes to a row the one that stands last in the log is kept.
pub fn materialize_events<'a>(
    events: &'a [Event],
    table_schema: &TableSchema,
    is_append_only: bool,
) -> (materialized: EtlResult<(Vec<Expr>, Vec<&'a TableRow>)>)
    requires
        keys_fit(*table_schema, changes(events@, is_append_only)),
    ensures
        materialized is Ok <==> have_keys(*table_schema, changes(events@, is_append_only)),
        materialized matches Ok((delete_predicates, upsert_rows)) ==> {
            let entries = registry(*table_schema, changes(events@, is_append_only));
            &&& expr_views(delete_predicates@) == deleted_keys(entries)
            &&& rows_of(upsert_rows@) == upserted_rows(entries)
        },
        materialized matches Err(error) ==> is_key_error(error, *table_schema),
{
    let ghost all = changes(events@, is_append_only);
    let mut pairs: Vec<(Expr, LWWReg<RowOp<'a>, Marker>)> = Vec::new();
    let mut i: usize = 0;
    proof {
        assert(events@.take(0) =~= Seq::empty());
        assert(entries(pairs@) =~= Seq::empty());
    }
    while i < events.len()
        invariant
            i <= events@.len(),
            all == changes(events@, is_append_only),
            keys_fit(*table_schema, all),
            have_keys(*table_schema, changes(events@.take(i as int), is_append_only)),
            entries(pairs@) == registry(
                *table_schema,
                changes(events@.take(i as int), is_append_only),
            ),
            forall|k: int|
                0 <= k < pairs@.len() ==> is_row_key(*table_schema, (#[trigger] pairs@[k]).0@),
        decreases events@.len() - i,
    {
        let ghost done = changes(events@.take(i as int), is_append_only);
        proof {
            assert(events@.take(i as int + 1).drop_last() =~= events@.take(i as int));
            changes_of_prefix(events@, is_append_only, i as int + 1);
        }
        match change_of(&events[i], is_append_only) {
            Some((row, op, marker)) => {
                let ghost change = Change { row: *row, op: operation(op), marker };
                proof {
                    assert(changes(events@.take(i as int + 1), is_append_only) == done.push(change));
                    assert(all[done.len() as int] == change);
                }
                let key = match build_row_key(table_schema, row) {
                    Ok(key) => key,
                    Err(error) => {
                        assert(!has_key(*table_schema, all[done.len() as int]));
                        return Err(error);
                    },
                };
                let ghost before = entries(pairs@);
                let ghost view = key@;
                proof {
                    assert(row_predicate(table_schema.column_schemas@, *row) == Some(view));
                    assert(is_row_key(*table_schema, view));
                    assert forall|k: int| 0 <= k < pairs@.len() implies expr::comparable(
                        (#[trigger] pairs@[k]).0@,
                        view,
                    ) by {
                        row_keys_are_comparable(*table_schema, pairs@[k].0@, view);
                    }
                    assert forall|k: int| 0 <= k < before.len() implies is_row_key(
                        *table_schema,
                        (#[trigger] before[k]).key,
                    ) by {
                        assert(before[k] == entry(pairs@[k]));
                    }
                }
                record(&mut pairs, key, op, marker);
                proof {
                    let after = recorded(before, view, operation(op), marker);
                    assert(done.push(change).drop_last() =~= done);
                    position_is_first(before, view);
                    assert(entries(pairs@).len() == pairs@.len());
                    assert forall|k: int| 0 <= k < pairs@.len() implies is_row_key(
                        *table_schema,
                        (#[trigger] pairs@[k]).0@,
                    ) by {
                        assert(entries(pairs@)[k] == entry(pairs@[k]));
                        assert(after[k].key == pairs@[k].0@);
                        if k < before.len() {
                            assert(after[k].key == before[k].key);
                        } else {
                            assert(after[k].key == view);
                        }
                    }
                }
            },
            None => {},
        }
        i += 1;
    }
    assert(events@.take(i as int) =~= events@);
    Ok(split_registry(pairs))
}

/// The rows to write for the events of an append-only table.
pub fn materialize_events_append_only<'a>(events: &'a [Event], table_schema: &TableSchema) -> (rows:
    EtlResult<Vec<&'a TableRow>>)
    requires
        keys_fit(*table_schema, changes(events@, true)),
    ensures
        rows is Ok <==> have_keys(*table_schema, changes(events@, true)),
        rows matches Ok(r) ==> rows_of(r@) == upserted_rows(
            registry(*table_schema, changes(events@, true)),
        ),
        rows matches Err(error) ==> is_key_error(error, *table_schema),
{
    match materialize_events(events, table_schema, true) {
        Ok((_, rows)) => Ok(rows),
        Err(error) => Err(error),
    }
}

/// Whether the primary keys of all changed rows are there and can be stored.
pub(crate) fn keys_can_be_stored(events: &[Event], table_schema: &TableSchema, is_append_only: bool) -> (fit:
    bool)
    ensures
        fit == keys_fit(*table_schema, changes(events@, is_append_only)),
{
    let ghost all = changes(events@, is_append_only);
    let mut i: usize = 0;
    assert(events@.take(0) =~= Seq::empty());
    while i < events.len()
        invariant
            i <= events@.len(),
            all == changes(events@, is_append_only),
            keys_fit(*table_schema, changes(events@.take(i as int), is_append_only)),
        decreases events@.len() - i,
    {
        let ghost done = changes(events@.take(i as int), is_append_only);
        proof {
            assert(events@.take(i as int + 1).drop_last() =~= events@.take(i as int));
            changes_of_prefix(events@, is_append_only, i as int + 1);
        }
        match change_of(&events[i], is_append_only) {
            Some((row, op, marker)) => {
                let ghost change = Change { row: *row, op: operation(op), marker };
                proof {
                    assert(changes(events@.take(i as int + 1), is_append_only) == done.push(change));
                    assert(all[done.len() as int] == change);
                }
                if !key_can_be_stored(table_schema, row) {
                    return false;
                }
            },
            None => {},
        }
        i += 1;
    }
    assert(events@.take(i as int) =~= events@);
    true
}

/// The predicates of the rows to delete, and the rows to write, for any events of a table:
/// nothing if the primary key of a changed row is not there or cannot be stored.
pub fn try_materialize_events<'a>(
    events: &'a [Event],
    table_schema: &TableSchema,
    is_append_only: bool,
) -> (materialized: Option<EtlResult<(Vec<Expr>, Vec<&'a TableRow>)>>)
    ensures
        materialized is Some <==> keys_fit(*table_schema, changes(events@, is_append_only)),
        materialized matches Some(result) ==> {
            &&& result is Ok <==> have_keys(*table_schema, changes(events@, is_append_only))
            &&& result matches Ok((delete_predicates, upsert_rows)) ==> {
                let entries = registry(*table_schema, changes(events@, is_append_only));
                &&& expr_views(delete_predicates@) == deleted_keys(entries)
                &&& rows_of(upsert_rows@) == upserted_rows(entries)
            }
            &&& result matches Err(error) ==> is_key_error(error, *table_schema)
        },
{
    if keys_can_be_stored(events, table_schema, is_append_only) {
        Some(materialize_events(events, table_schema, is_append_only))
    } else {
        None
    }
}

/// The rows to write for any events of an append-only table: nothing if the primary key of a
/// new row is not there or cannot be stored.
pub fn try_materialize_events_append_only<'a>(events: &'a [Event], table_schema: &TableSchema) -> (rows:
    Option<EtlResult<Vec<&'a TableRow>>>)
    ensures
        rows is Some <==> keys_fit(*table_schema, changes(events@, true)),
        rows matches Some(result) ==> {
            &&& result is Ok <==> have_keys(*table_schema, changes(events@, true))
            &&& result matches Ok(r) ==> rows_of(r@) == upserted_rows(
                registry(*table_schema, changes(events@, true)),
            )
            &&& result matches Err(error) ==> is_key_error(error, *table_schema)
        },
{
    if keys_can_be_stored(events, table_schema, true) {
        Some(materialize_events_append_only(events, table_schema))
    } else {
        None
    }
}

/// The changes of the first events are the first changes.
proof fn changes_of_prefix(events: Seq<Event>, append_only: bool, n: int)
    requires
        0 <= n <= events.len(),
    ensures
        changes(events.take(n), append_only).len() <= changes(events, append_only).len(),
        changes(events.take(n), append_only) == changes(events, append_only).take(
            changes(events.take(n), append_only).len() as int,
        ),
        forall|i: int|
            0 <= i < changes(events.take(n), append_only).len() ==> changes(
                events.take(n),
                append_only,
            )[i] == #[trigger] changes(events, append_only)[i],
    decreases events.len(),
{
    if n == events.len() {
        assert(events.take(n) =~= events);
        assert(changes(events, append_only).take(changes(events, append_only).len() as int)
            =~= changes(events, append_only));
    } else {
        let before = events.drop_last();
        changes_of_prefix(before, append_only, n);
        assert(before.take(n) =~= events.take(n));
        let m = changes(events.take(n), append_only).len() as int;
        assert(changes(events, append_only).take(m) =~= changes(before, append_only).take(m));
        assert forall|i: int| 0 <= i < m implies changes(events.take(n), append_only)[i]
            == #[trigger] changes(events, append_only)[i] by {
            assert(changes(before, append_only)[i] == changes(events, append_only)[i]);
        }
    }
}

/// No two entries have the same key.
pub open spec fn keys_differ(entries: Seq<Entry>) -> bool {
    forall|i: int, j: int|
        0 <= i < j < entries.len() ==> (#[trigger] entries[i]).key != (#[trigger] entries[j]).key
}

/// Of all changes to one row a single one is kept.
pub proof fn each_row_is_kept_once(table_schema: TableSchema, changes: Seq<Change>)
    ensures
        keys_differ(registry(table_schema, changes)),
    decreases changes.len(),
{
    if changes.len() > 0 {
        let before = registry(table_schema, changes.drop_last());
        each_row_is_kept_once(table_schema, changes.drop_last());
        position_is_first(before, change_key(table_schema, changes.last()));
    }
}

/// Whether an entry keeps a change.
pub open spec fn keeps(table_schema: TableSchema, entry: Entry, change: Change) -> bool {
    &&& entry.key == change_key(table_schema, change)
    &&& entry.op == change.op
    &&& entry.marker == change.marker
}

/// Every changed row is kept, and the change that is kept is one that no other change to that row
/// stands behind. Of changes at the same place it is the first.
pub proof fn latest_change_wins(table_schema: TableSchema, changes: Seq<Change>, i: int)
    requires
        0 <= i < changes.len(),
    ensures
        exists|e: int, w: int|
            {
                &&& 0 <= e < registry(table_schema, changes).len()
                &&& 0 <= w < changes.len()
                &&& #[trigger] keeps(table_schema, registry(table_schema, changes)[e], changes[w])
                &&& change_key(table_schema, changes[w]) == change_key(table_schema, changes[i])
                &&& !is_before(changes[w].marker, changes[i].marker)
                &&& changes[w].marker == changes[i].marker ==> w <= i
            },
    decreases changes.len(),
{
    let earlier = changes.drop_last();
    let before = registry(table_schema, earlier);
    let entries = registry(table_schema, changes);
    let last = changes.len() - 1;
    let key = change_key(table_schema, changes[last]);
    position_is_first(before, key);
    each_row_is_kept_once(table_schema, earlier);
    let at = position(before, key) as int;
    if i < last {
        latest_change_wins(table_schema, earlier, i);
        let (e, w) = choose|e: int, w: int|
            {
                &&& 0 <= e < before.len()
                &&& 0 <= w < earlier.len()
                &&& #[trigger] keeps(table_schema, before[e], earlier[w])
                &&& change_key(table_schema, earlier[w]) == change_key(table_schema, earlier[i])
                &&& !is_before(earlier[w].marker, earlier[i].marker)
                &&& earlier[w].marker == earlier[i].marker ==> w <= i
            };
        assert(earlier[i] == changes[i] && earlier[w] == changes[w]);
        if e == at && is_before(before[at].marker, changes[last].marker) {
            assert(keeps(table_schema, entries[e], changes[last]));
        } else {
            assert(keeps(table_schema, entries[e], changes[w]));
        }
    } else if at >= before.len() {
        assert(keeps(table_schema, entries[before.len() as int], changes[last]));
    } else if is_before(before[at].marker, changes[last].marker) {
        assert(keeps(table_schema, entries[at], changes[last]));
    } else {
        kept_changes_were_made(table_schema, earlier, at);
        let w = choose|w: int|
            0 <= w < earlier.len() && keeps(table_schema, before[at], #[trigger] earlier[w]);
        assert(earlier[w] == changes[w]);
        assert(keeps(table_schema, entries[at], changes[w]));
    }
}

/// Every change that is kept was made.
pub proof fn kept_changes_were_made(table_schema: TableSchema, changes: Seq<Change>, e: int)
    requires
        0 <= e < registry(table_schema, changes).len(),
    ensures
        exists|w: int|
            0 <= w < changes.len() && keeps(
                table_schema,
                registry(table_schema, changes)[e],
                #[trigger] changes[w],
            ),
    decreases changes.len(),
{
    if changes.len() > 0 {
        let earlier = changes.drop_last();
        let before = registry(table_schema, earlier);
        let entries = registry(table_schema, changes);
        let last = changes.len() - 1;
        position_is_first(before, change_key(table_schema, changes[last]));
        if e < before.len() && entries[e] == before[e] {
            kept_changes_were_made(table_schema, earlier, e);
            let w = choose|w: int|
                0 <= w < earlier.len() && keeps(table_schema, before[e], #[trigger] earlier[w]);
            assert(earlier[w] == changes[w]);
            assert(keeps(table_schema, entries[e], changes[w]));
        } else {
            assert(keeps(table_schema, entries[e], changes[last]));
        }
    }
}

/// Whether every change of one sequence is in another.
pub open spec fn are_among(left: Seq<Change>, right: Seq<Change>) -> bool {
    forall|i: int| 0 <= i < left.len() ==> right.contains(#[trigger] left[i])
}

/// Whether changes to one row stand at one place only if they are the same.
pub open spec fn places_differ(table_schema: TableSchema, changes: Seq<Change>) -> bool {
    forall|i: int, j: int|
        0 <= i < changes.len() && 0 <= j < changes.len() && change_key(
            table_schema,
            #[trigger] changes[i],
        ) == change_key(table_schema, #[trigger] changes[j]) && changes[i].marker
            == changes[j].marker ==> changes[i] == changes[j]
}

/// What is kept of a row is the same for every order of the changes.
proof fn entries_are_the_same_in_any_order(
    table_schema: TableSchema,
    left: Seq<Change>,
    right: Seq<Change>,
    a: int,
    b: int,
)
    requires
        are_among(left, right),
        are_among(right, left),
        places_differ(table_schema, left),
        0 <= a < registry(table_schema, left).len(),
        0 <= b < registry(table_schema, right).len(),
        registry(table_schema, left)[a].key == registry(table_schema, right)[b].key,
    ensures
        registry(table_schema, left)[a] == registry(table_schema, right)[b],
{
    let entries = registry(table_schema, left);
    let others = registry(table_schema, right);
    each_row_is_kept_once(table_schema, left);
    each_row_is_kept_once(table_schema, right);
    kept_changes_were_made(table_schema, left, a);
    kept_changes_were_made(table_schema, right, b);
    let v = choose|v: int|
        0 <= v < left.len() && keeps(table_schema, entries[a], #[trigger] left[v]);
    let w = choose|w: int|
        0 <= w < right.len() && keeps(table_schema, others[b], #[trigger] right[w]);
    assert(right.contains(left[v]));
    assert(left.contains(right[w]));
    let i = choose|i: int| 0 <= i < right.len() && right[i] == left[v];
    let j = choose|j: int| 0 <= j < left.len() && left[j] == right[w];
    latest_change_wins(table_schema, right, i);
    let (e, x) = choose|e: int, x: int|
        {
            &&& 0 <= e < others.len()
            &&& 0 <= x < right.len()
            &&& #[trigger] keeps(table_schema, others[e], right[x])
            &&& change_key(table_schema, right[x]) == change_key(table_schema, right[i])
            &&& !is_before(right[x].marker, right[i].marker)
            &&& right[x].marker == right[i].marker ==> x <= i
        };
    assert(e == b) by {
        assert(others[e].key == others[b].key);
    }
    latest_change_wins(table_schema, left, j);
    let (f, y) = choose|f: int, y: int|
        {
            &&& 0 <= f < entries.len()
            &&& 0 <= y < left.len()
            &&& #[trigger] keeps(table_schema, entries[f], left[y])
            &&& change_key(table_schema, left[y]) == change_key(table_schema, left[j])
            &&& !is_before(left[y].marker, left[j].marker)
            &&& left[y].marker == left[j].marker ==> y <= j
        };
    assert(f == a) by {
        assert(entries[f].key == entries[a].key);
    }
    assert(left[v].marker == left[j].marker);
    assert(left[v] == left[j]);
}

/// The order in which changes arrive does not matter: what is kept of a row is kept of it for every
/// order, as long as no two different changes to a row stand at the same place.
pub proof fn order_does_not_matter(
    table_schema: TableSchema,
    left: Seq<Change>,
    right: Seq<Change>,
    a: int,
)
    requires
        are_among(left, right),
        are_among(right, left),
        places_differ(table_schema, left),
        0 <= a < registry(table_schema, left).len(),
    ensures
        registry(table_schema, right).contains(registry(table_schema, left)[a]),
{
    let entries = registry(table_schema, left);
    let others = registry(table_schema, right);
    kept_changes_were_made(table_schema, left, a);
    let v = choose|v: int|
        0 <= v < left.len() && keeps(table_schema, entries[a], #[trigger] left[v]);
    assert(right.contains(left[v]));
    let i = choose|i: int| 0 <= i < right.len() && right[i] == left[v];
    latest_change_wins(table_schema, right, i);
    let (e, x) = choose|e: int, x: int|
        {
            &&& 0 <= e < others.len()
            &&& 0 <= x < right.len()
            &&& #[trigger] keeps(table_schema, others[e], right[x])
            &&& change_key(table_schema, right[x]) == change_key(table_schema, right[i])
            &&& !is_before(right[x].marker, right[i].marker)
            &&& right[x].marker == right[i].marker ==> x <= i
        };
    entries_are_the_same_in_any_order(table_schema, left, right, a, e);
}

/// Nothing is deleted from an append-only table.
pub proof fn append_only_tables_lose_nothing(table_schema: TableSchema, events: Seq<Event>)
    ensures
        deleted_keys(registry(table_schema, changes(events, true))).len() == 0,
{
    let all = changes(events, true);
    let entries = registry(table_schema, all);
    append_only_changes_are_writes(events);
    assert forall|e: int| 0 <= e < entries.len() implies (#[trigger] entries[e]).op is Upsert by {
        kept_changes_were_made(table_schema, all, e);
    }
    writes_delete_nothing(entries);
}

proof fn append_only_changes_are_writes(events: Seq<Event>)
    ensures
        forall|i: int|
            0 <= i < changes(events, true).len() ==> (#[trigger] changes(events, true)[i]).op
                is Upsert,
    decreases events.len(),
{
    if events.len() > 0 {
        append_only_changes_are_writes(events.drop_last());
        let before = changes(events.drop_last(), true);
        assert forall|i: int| 0 <= i < changes(events, true).len() implies (
        #[trigger] changes(events, true)[i]).op is Upsert by {
            if i < before.len() {
                assert(changes(events, true)[i] == before[i]);
            }
        }
    }
}

proof fn writes_delete_nothing(entries: Seq<Entry>)
    requires
        forall|e: int| 0 <= e < entries.len() ==> (#[trigger] entries[e]).op is Upsert,
    ensures
        deleted_keys(entries).len() == 0,
    decreases entries.len(),
{
    if entries.len() > 0 {
        assert(entries[entries.len() - 1].op is Upsert);
        assert forall|e: int| 0 <= e < entries.drop_last().len() implies (
        #[trigger] entries.drop_last()[e]).op is Upsert by {
            assert(entries.drop_last()[e] == entries[e]);
        }
        writes_delete_nothing(entries.drop_last());
    }
}

/// Every row that is deleted or written comes from an entry of its own.
pub proof fn entries_are_deleted_or_written(entries: Seq<Entry>)
    ensures
        deleted_keys(entries).len() + upserted_rows(entries).len() == entries.len(),
        forall|d: int|
            0 <= d < deleted_keys(entries).len() ==> exists|e: int|
                0 <= e < entries.len() && (#[trigger] entries[e]).op is Delete && entries[e].key
                    == #[trigger] deleted_keys(entries)[d],
        forall|u: int|
            0 <= u < upserted_rows(entries).len() ==> exists|e: int|
                0 <= e < entries.len() && (#[trigger] entries[e]).op == Operation::Upsert(
                    #[trigger] upserted_rows(entries)[u],
                ),
    decreases entries.len(),
{
    if entries.len() > 0 {
        let before = entries.drop_last();
        let last = entries.len() - 1;
        entries_are_deleted_or_written(before);
        assert forall|d: int| 0 <= d < deleted_keys(entries).len() implies exists|e: int|
            0 <= e < entries.len() && (#[trigger] entries[e]).op is Delete && entries[e].key
                == #[trigger] deleted_keys(entries)[d] by {
            if d < deleted_keys(before).len() {
                assert(deleted_keys(entries)[d] == deleted_keys(before)[d]);
                let e = choose|e: int|
                    0 <= e < before.len() && (#[trigger] before[e]).op is Delete && before[e].key
                        == deleted_keys(before)[d];
                assert(entries[e] == before[e]);
            } else {
                assert(entries[last].op is Delete);
            }
        }
        assert forall|u: int| 0 <= u < upserted_rows(entries).len() implies exists|e: int|
            0 <= e < entries.len() && (#[trigger] entries[e]).op == Operation::Upsert(
                #[trigger] upserted_rows(entries)[u],
            ) by {
            if u < upserted_rows(before).len() {
                assert(upserted_rows(entries)[u] == upserted_rows(before)[u]);
                let e = choose|e: int|
                    0 <= e < before.len() && (#[trigger] before[e]).op == Operation::Upsert(
                        upserted_rows(before)[u],
                    );
                assert(entries[e] == before[e]);
            } else {
                assert(entries[last].op == Operation::Upsert(upserted_rows(entries)[u]));
            }
        }
    }
}

/// No row is both deleted and written: the predicate of a deletion is never that of a row that
/// is written.
pub proof fn no_row_is_deleted_and_written(
    table_schema: TableSchema,
    events: Seq<Event>,
    append_only: bool,
    d: int,
    u: int,
)
    requires
        have_keys(table_schema, changes(events, append_only)),
        0 <= d < deleted_keys(registry(table_schema, changes(events, append_only))).len(),
        0 <= u < upserted_rows(registry(table_schema, changes(events, append_only))).len(),
    ensures
        row_predicate(
            table_schema.column_schemas@,
            upserted_rows(registry(table_schema, changes(events, append_only)))[u],
        ) != Some(deleted_keys(registry(table_schema, changes(events, append_only)))[d]),
{
    let all = changes(events, append_only);
    let entries = registry(table_schema, all);
    each_row_is_kept_once(table_schema, all);
    entries_are_deleted_or_written(entries);
    let key = deleted_keys(entries)[d];
    let row = upserted_rows(entries)[u];
    let a = choose|e: int|
        0 <= e < entries.len() && (#[trigger] entries[e]).op is Delete && entries[e].key == key;
    let b = choose|e: int|
        0 <= e < entries.len() && (#[trigger] entries[e]).op == Operation::Upsert(row);
    kept_changes_were_made(table_schema, all, b);
    written_rows_are_changed_rows(events, append_only);
    let w = choose|w: int|
        0 <= w < all.len() && keeps(table_schema, entries[b], #[trigger] all[w]);
    assert(all[w].row == row);
    assert(a != b);
}

proof fn written_rows_are_changed_rows(events: Seq<Event>, append_only: bool)
    ensures
        forall|i: int|
            0 <= i < changes(events, append_only).len() ==> ((#[trigger] changes(
                events,
                append_only,
            )[i]).op matches Operation::Upsert(row) ==> row == changes(events, append_only)[i].row),
    decreases events.len(),
{
    if events.len() > 0 {
        written_rows_are_changed_rows(events.drop_last(), append_only);
        let before = changes(events.drop_last(), append_only);
        assert forall|i: int| 0 <= i < changes(events, append_only).len() implies ((
        #[trigger] changes(events, append_only)[i]).op matches Operation::Upsert(row) ==> row
            == changes(events, append_only)[i].row) by {
            if i < before.len() {
                assert(changes(events, append_only)[i] == before[i]);
            }
        }
    }
}

} // verus!
