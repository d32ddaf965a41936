//! Predicates over the columns of a table.

use arrow::array::{ArrayData, make_array};
use datafusion_common::{ScalarValue, TableReference};
use vstd::prelude::*;

use crate::batch::array;
use crate::batch::array::{EncodedBatch, Item, array_items, array_type};
use crate::batch::cells::{cells, is_encoded};
use crate::batch::data_type;
use crate::batch::data_type::{Field, TypeView};
use crate::batch::encoding;
use crate::batch::limits;
use crate::deltalake::schema::{postgres_arrow_field, postgres_to_arrow_field};
use crate::error::{EtlError, EtlResult, ErrorKind};
use crate::text;
use crate::types::{Cell, ColumnSchema, TableRow, TableSchema};

verus! {

broadcast use text::texts_of_push;

/// Declares `datafusion_common::ScalarValue`, a single value with its type.
#[verifier::external_type_specification]
#[verifier::external_body]
pub struct ExScalarValue(ScalarValue);

/// The type of a scalar value.
pub uninterp spec fn scalar_type(scalar: ScalarValue) -> TypeView;

/// The value of a scalar value.
pub uninterp spec fn scalar_item(scalar: ScalarValue) -> Item;

/// The parts of the name of a table that DataFusion reads in a text, the table last.
pub uninterp spec fn table_reference(name: Seq<char>) -> Seq<Seq<char>>;

/// Whether the values of an array of this type are read as scalar values of this type. The notes of
/// the elements of a list are lost.
pub open spec fn is_scalar(data_type: TypeView) -> bool {
    match data_type {
        TypeView::List(element) => is_encoded(element.data_type) && element.metadata == Map::<
            Seq<char>,
            Seq<char>,
        >::empty(),
        _ => is_encoded(data_type),
    }
}

/// Calls `ScalarValue::try_from_array`: the value at an index of an array, with the type of the
/// array. It is read if the type is one that rows are encoded in, or a list of such values without
/// notes. Nothing is said of other types. The text of an error is returned.
#[verifier::external_body]
fn scalar_from_array(array: &ArrayData, index: usize) -> (scalar: Result<ScalarValue, String>)
    requires
        index < array_items(*array).len(),
    ensures
        is_scalar(array_type(*array)) ==> scalar is Ok,
        scalar matches Ok(s) ==> is_scalar(array_type(*array)) ==> {
            &&& scalar_type(s) == array_type(*array)
            &&& scalar_item(s) == array_items(*array)[index as int]
        },
{
    ScalarValue::try_from_array(&make_array(array.clone()), index).map_err(|e| e.to_string())
}

/// Calls `ScalarValue::eq`: two scalar values of one type are equal if their values are. Floats
/// are compared by their bits, and lists by their elements.
#[verifier::external_body]
fn scalars_equal(left: &ScalarValue, right: &ScalarValue) -> (equal: bool)
    ensures
        scalar_type(*left) == scalar_type(*right) && is_scalar(scalar_type(*left)) ==> equal == (
        scalar_item(*left) == scalar_item(*right)),
{
    left == right
}

/// Whether a text is a name of lower case letters, digits and underscores, and starts with no
/// digit.
pub open spec fn is_plain_name(name: Seq<char>) -> bool {
    &&& name.len() > 0
    &&& !('0' <= name[0] <= '9')
    &&& forall|i: int|
        0 <= i < name.len() ==> 'a' <= #[trigger] name[i] <= 'z' || '0' <= name[i] <= '9' || name[i]
            == '_'
}

/// Calls `TableReference::from` on a text, and `TableReference::to_vec`: the parts of the name of
/// a table, of which there are one to three. A plain name has itself as its only part.
#[verifier::external_body]
fn parse_table_reference(name: &str) -> (parts: Vec<String>)
    ensures
        text::texts(parts@) == table_reference(name@),
        1 <= parts@.len() <= 3,
        is_plain_name(name@) ==> text::texts(parts@) == seq![name@],
{
    TableReference::from(name).to_vec()
}

/// An operator between two expressions.
#[derive(Debug, Clone, Copy, PartialEq, Eq, Structural)]
pub enum Operator {
    /// Whether two values are equal.
    Eq,
    /// Whether two conditions hold.
    And,
    /// Whether one of two conditions holds.
    Or,
}

/// A column, by its name.
#[derive(Debug, Clone, PartialEq, Eq)]
pub struct Column {
    /// The parts of the name of the relation that has the column, the table last.
    pub relation: Option<Vec<String>>,
    /// The name of the column.
    pub name: String,
}

impl Column {
    /// A column of a relation.
    pub fn new(relation: &str, name: &str) -> (column: Column)
        ensures
            column@ == qualified_column(relation@, name@),
            is_plain_name(relation@) ==> column@ == (ExprView::Column {
                relation: Some(seq![relation@]),
                name: name@,
            }),
    {
        Column { relation: Some(parse_table_reference(relation)), name: name.to_string() }
    }

    /// A column of any relation.
    pub fn new_unqualified(name: &str) -> (column: Column)
        ensures
            column@ == unqualified_column(name@),
    {
        Column { relation: None, name: name.to_string() }
    }

    /// Whether two columns have the same relation and the same name.
    fn same(&self, other: &Column) -> (same: bool)
        ensures
            same == (self@ == other@),
    {
        if self.name != other.name {
            return false;
        }
        match (&self.relation, &other.relation) {
            (None, None) => true,
            (Some(left), Some(right)) => {
                if left.len() != right.len() {
                    assert(text::texts(left@).len() != text::texts(right@).len());
                    return false;
                }
                let mut i: usize = 0;
                while i < left.len()
                    invariant
                        i <= left@.len(),
                        left@.len() == right@.len(),
                        self.relation == Some(*left),
                        other.relation == Some(*right),
                        self.name@ == other.name@,
                        forall|k: int| 0 <= k < i ==> (#[trigger] left@[k])@ == right@[k]@,
                    decreases left@.len() - i,
                {
                    if left[i] != right[i] {
                        assert(text::texts(left@)[i as int] != text::texts(right@)[i as int]);
                        return false;
                    }
                    i += 1;
                }
                assert(text::texts(left@) =~= text::texts(right@));
                true
            },
            _ => false,
        }
    }
}

impl View for Column {
    type V = ExprView;

    open spec fn view(&self) -> ExprView {
        ExprView::Column {
            relation: match self.relation {
                Some(parts) => Some(text::texts(parts@)),
                None => None,
            },
            name: self.name@,
        }
    }
}

/// An expression.
#[derive(Debug, PartialEq)]
pub enum Expr {
    /// A column.
    Column(Column),
    /// A value.
    Literal(ScalarValue),
    /// Two expressions with an operator between them.
    BinaryExpr {
        /// The expression before the operator.
        left: Box<Expr>,
        /// The operator.
        op: Operator,
        /// The expression behind the operator.
        right: Box<Expr>,
    },
}

/// What an expression says.
pub enum ExprView {
    /// A column.
    Column {
        /// The parts of the name of the relation that has the column, the table last.
        relation: Option<Seq<Seq<char>>>,
        /// The name of the column.
        name: Seq<char>,
    },
    /// A value.
    Literal {
        /// The type of the value.
        data_type: TypeView,
        /// The value.
        value: Item,
    },
    /// Two expressions with an operator between them.
    BinaryExpr {
        /// The expression before the operator.
        left: Box<ExprView>,
        /// The operator.
        op: Operator,
        /// The expression behind the operator.
        right: Box<ExprView>,
    },
}

/// What an expression says.
pub open spec fn expr_view(expr: Expr) -> ExprView
    decreases expr,
{
    match expr {
        Expr::Column(column) => column@,
        Expr::Literal(scalar) => ExprView::Literal {
            data_type: scalar_type(scalar),
            value: scalar_item(scalar),
        },
        Expr::BinaryExpr { left, op, right } => ExprView::BinaryExpr {
            left: Box::new(expr_view(*left)),
            op,
            right: Box::new(expr_view(*right)),
        },
    }
}

impl View for Expr {
    type V = ExprView;

    open spec fn view(&self) -> ExprView {
        expr_view(*self)
    }
}

/// What some expressions say.
pub open spec fn expr_views(exprs: Seq<Expr>) -> Seq<ExprView> {
    exprs.map_values(|expr: Expr| expr@)
}

/// Two expressions with an operator between them.
pub open spec fn binary(left: ExprView, op: Operator, right: ExprView) -> ExprView {
    ExprView::BinaryExpr { left: Box::new(left), op, right: Box::new(right) }
}

/// A column of a relation.
pub open spec fn qualified_column(relation: Seq<char>, name: Seq<char>) -> ExprView {
    ExprView::Column { relation: Some(table_reference(relation)), name }
}

/// A column of any relation.
pub open spec fn unqualified_column(name: Seq<char>) -> ExprView {
    ExprView::Column { relation: None, name }
}

/// Whether the values that stand at the same place in two expressions have the same type.
pub open spec fn comparable(a: ExprView, b: ExprView) -> bool
    decreases a,
{
    match (a, b) {
        (
            ExprView::Literal { data_type: left, value: _ },
            ExprView::Literal { data_type: right, value: _ },
        ) => left == right && is_scalar(left),
        (
            ExprView::BinaryExpr { left: left_a, op: _, right: right_a },
            ExprView::BinaryExpr { left: left_b, op: _, right: right_b },
        ) => comparable(*left_a, *left_b) && comparable(*right_a, *right_b),
        _ => true,
    }
}

impl Expr {
    /// Whether two expressions are equal.
    pub fn equals(self, other: Expr) -> (expr: Expr)
        ensures
            expr@ == binary(self@, Operator::Eq, other@),
    {
        Expr::BinaryExpr { left: Box::new(self), op: Operator::Eq, right: Box::new(other) }
    }

    /// Whether two conditions hold.
    pub fn and(self, other: Expr) -> (expr: Expr)
        ensures
            expr@ == binary(self@, Operator::And, other@),
    {
        Expr::BinaryExpr { left: Box::new(self), op: Operator::And, right: Box::new(other) }
    }

    /// Whether one of two conditions holds.
    pub fn or(self, other: Expr) -> (expr: Expr)
        ensures
            expr@ == binary(self@, Operator::Or, other@),
    {
        Expr::BinaryExpr { left: Box::new(self), op: Operator::Or, right: Box::new(other) }
    }

    /// Whether two expressions say the same.
    pub(crate) fn same(&self, other: &Expr) -> (same: bool)
        requires
            comparable(self@, other@),
        ensures
            same == (self@ == other@),
        decreases self,
    {
        match (self, other) {
            (Expr::Column(left), Expr::Column(right)) => left.same(right),
            (Expr::Literal(left), Expr::Literal(right)) => scalars_equal(left, right),
            (
                Expr::BinaryExpr { left: left_a, op: op_a, right: right_a },
                Expr::BinaryExpr { left: left_b, op: op_b, right: right_b },
            ) => *op_a == *op_b && left_a.same(left_b) && right_a.same(right_b),
            _ => false,
        }
    }
}

/// The value of a cell in a predicate over a column.
pub open spec fn cell_literal(column: ColumnSchema, cell: Cell) -> ExprView {
    ExprView::Literal {
        data_type: postgres_arrow_field(column).data_type,
        value: cell_value(column, cell),
    }
}

/// The value of a cell in the Arrow column for a column.
pub open spec fn cell_value(column: ColumnSchema, cell: Cell) -> Item {
    encoding::column_items(postgres_arrow_field(column).data_type, seq![cell])[0]
}

/// Whether a cell can be stored in the Arrow column for a column.
pub open spec fn cell_fits(column: ColumnSchema, cell: Cell) -> bool {
    encoding::column_fits(postgres_arrow_field(column).data_type, seq![cell])
}

/// Whether a cell has a value for a column: the cell has the type of the column, and is not
/// missing unless the column allows it.
pub open spec fn cell_converts(column: ColumnSchema, cell: Cell) -> bool {
    let data_type = postgres_arrow_field(column).data_type;
    &&& encoding::column_type(data_type, seq![cell]) == data_type
    &&& column.nullable || cell_value(column, cell) != Item::Null
}

/// Whether one of the columns is part of the primary key.
pub open spec fn has_primary_key(columns: Seq<ColumnSchema>) -> bool {
    exists|i: int| 0 <= i < columns.len() && (#[trigger] columns[i]).primary
}

/// Whether a row has a cell for every column of the primary key that can be stored.
pub open spec fn key_fits(columns: Seq<ColumnSchema>, values: Seq<Cell>) -> bool {
    forall|i: int|
        0 <= i < columns.len() && (#[trigger] columns[i]).primary ==> i < values.len() && cell_fits(
            columns[i],
            values[i],
        )
}

/// Whether the cells of the primary key have values for their columns.
pub open spec fn key_converts(columns: Seq<ColumnSchema>, values: Seq<Cell>) -> bool {
    forall|i: int|
        0 <= i < columns.len() && (#[trigger] columns[i]).primary ==> cell_converts(
            columns[i],
            values[i],
        )
}

/// That the first `n` columns have the values of a row where they belong to the primary key.
pub open spec fn key_predicate(
    columns: Seq<ColumnSchema>,
    values: Seq<Cell>,
    n: nat,
) -> Option<ExprView>
    decreases n,
{
    if n == 0 {
        None
    } else {
        let before = key_predicate(columns, values, (n - 1) as nat);
        let column = columns[n - 1];
        if column.primary {
            let condition = binary(
                unqualified_column(column.name@),
                Operator::Eq,
                cell_literal(column, values[n - 1]),
            );
            match before {
                Some(conditions) => Some(binary(conditions, Operator::And, condition)),
                None => Some(condition),
            }
        } else {
            before
        }
    }
}

/// The predicate that picks the row with the primary key of a row.
pub open spec fn row_predicate(columns: Seq<ColumnSchema>, row: TableRow) -> Option<ExprView> {
    key_predicate(columns, row.values@, columns.len())
}

/// A cell of a row as a value in a predicate.
fn cell_to_scalar_expr(row: &TableRow, idx: usize, column: &ColumnSchema) -> (expr: EtlResult<Expr>)
    requires
        idx < row.values@.len(),
        cell_fits(*column, row.values@[idx as int]),
    ensures
        expr is Ok <==> cell_converts(*column, row.values@[idx as int]),
        expr matches Ok(e) ==> e@ == cell_literal(*column, row.values@[idx as int]),
        expr matches Err(error) ==> error.is(
            ErrorKind::ConversionError,
            "Failed to convert row to Arrow array"@,
        ) && error.detail is Some,
{
    let field = postgres_to_arrow_field(column);
    let mut rows: Vec<&TableRow> = Vec::new();
    rows.push(row);
    let ghost cell = row.values@[idx as int];
    assert(cells(rows@, idx as int) =~= seq![cell]);
    let array = encoding::build_array_for_field(rows.as_slice(), idx, &field.data_type);
    let arrow_field = data_type::arrow_field(&field);
    let mut fields: Vec<arrow::datatypes::Field> = Vec::new();
    fields.push(arrow_field);
    let mut arrays: Vec<ArrayData> = Vec::new();
    arrays.push(array);
    let ghost items = array_items(array);
    proof {
        let views = array::fields_held(fields@);
        let columns = array::array_columns(arrays@);
        let types = array::array_types(arrays@);
        assert(views =~= seq![field@]);
        assert(columns =~= seq![items]);
        assert(types =~= seq![array_type(array)]);
        assert(items.len() == 1);
        if cell_converts(*column, cell) {
            assert forall|i: int| 0 <= i < columns.len() implies {
                &&& #[trigger] columns[i].len() == columns[0].len()
                &&& views[i].data_type == types[i]
                &&& views[i].nullable || !columns[i].contains(Item::Null)
            } by {
                if !column.nullable {
                    assert(items[0] != Item::Null);
                }
            }
        }
        if array::makes_batch(views, types, columns) {
            assert(columns[0].len() == columns[0].len());
            if !column.nullable && items[0] == Item::Null {
                assert(columns[0].contains(Item::Null));
            }
        }
    }
    let batch = match EncodedBatch::try_new(fields, arrays) {
        Ok(batch) => batch,
        Err(message) => {
            return Err(
                EtlError::with_detail(
                    ErrorKind::ConversionError,
                    "Failed to convert row to Arrow array",
                    message,
                ),
            );
        },
    };
    match scalar_from_array(batch.column(0), 0) {
        Ok(scalar) => Ok(Expr::Literal(scalar)),
        Err(message) => Err(
            EtlError::with_detail(
                ErrorKind::ConversionError,
                "Failed to convert cell to scalar expression",
                message,
            ),
        ),
    }
}

/// The predicate that picks the row with the primary key of a row.
pub fn build_pk_expr(table_schema: &TableSchema, row: &TableRow) -> (expr: EtlResult<Expr>)
    requires
        key_fits(table_schema.column_schemas@, row.values@),
    ensures
        expr is Ok <==> has_primary_key(table_schema.column_schemas@) && key_converts(
            table_schema.column_schemas@,
            row.values@,
        ),
        expr matches Ok(e) ==> row_predicate(table_schema.column_schemas@, *row) == Some(e@),
        expr matches Err(error) ==> if key_converts(table_schema.column_schemas@, row.values@) {
            error.is(ErrorKind::ConversionError, "Table has no primary key columns"@)
                && error.detail is None
        } else {
            error.is(ErrorKind::ConversionError, "Failed to convert row to Arrow array"@)
                && error.detail is Some
        },
{
    let columns = &table_schema.column_schemas;
    let mut pk_expr: Option<Expr> = None;
    let mut idx: usize = 0;
    while idx < columns.len()
        invariant
            idx <= columns@.len(),
            columns@ == table_schema.column_schemas@,
            key_fits(columns@, row.values@),
            match (pk_expr, key_predicate(columns@, row.values@, idx as nat)) {
                (Some(expr), Some(predicate)) => expr@ == predicate,
                (None, None) => true,
                _ => false,
            },
            pk_expr is Some <==> exists|i: int| 0 <= i < idx && (#[trigger] columns@[i]).primary,
            forall|i: int|
                0 <= i < idx && (#[trigger] columns@[i]).primary ==> cell_converts(
                    columns@[i],
                    row.values@[i],
                ),
        decreases columns@.len() - idx,
    {
        let column = &columns[idx];
        if column.primary {
            let value = match cell_to_scalar_expr(row, idx, column) {
                Ok(value) => value,
                Err(error) => return Err(error),
            };
            let condition = Expr::Column(Column::new_unqualified(column.name.as_str())).equals(value);
            pk_expr =
            Some(
                match pk_expr {
                    None => condition,
                    Some(conditions) => conditions.and(condition),
                },
            );
        }
        idx += 1;
    }
    match pk_expr {
        Some(expr) => Ok(expr),
        None => Err(
            EtlError::new(ErrorKind::ConversionError, "Table has no primary key columns"),
        ),
    }
}

/// Whether a row has a cell for every column of the primary key that can be stored.
pub fn key_can_be_stored(table_schema: &TableSchema, row: &TableRow) -> (fit: bool)
    ensures
        fit == key_fits(table_schema.column_schemas@, row.values@),
{
    let columns = &table_schema.column_schemas;
    let mut idx: usize = 0;
    while idx < columns.len()
        invariant
            idx <= columns@.len(),
            columns@ == table_schema.column_schemas@,
            forall|i: int|
                0 <= i < idx && (#[trigger] columns@[i]).primary ==> i < row.values@.len()
                    && cell_fits(columns@[i], row.values@[i]),
        decreases columns@.len() - idx,
    {
        let column = &columns[idx];
        if column.primary {
            if idx >= row.values.len() {
                return false;
            }
            let field = postgres_to_arrow_field(column);
            let mut rows: Vec<&TableRow> = Vec::new();
            rows.push(row);
            assert(cells(rows@, idx as int) =~= seq![row.values@[idx as int]]);
            if !limits::column_can_be_stored(rows.as_slice(), idx, &field.data_type) {
                return false;
            }
        }
        idx += 1;
    }
    true
}

/// The predicate that picks the row with the primary key of a row, for any row: nothing if the
/// row ends before a column of the primary key, or if a cell cannot be stored.
pub fn try_build_pk_expr(table_schema: &TableSchema, row: &TableRow) -> (expr: Option<
    EtlResult<Expr>,
>)
    ensures
        expr is Some <==> key_fits(table_schema.column_schemas@, row.values@),
        expr matches Some(result) ==> {
            &&& result is Ok <==> has_primary_key(table_schema.column_schemas@) && key_converts(
                table_schema.column_schemas@,
                row.values@,
            )
            &&& result matches Ok(e) ==> row_predicate(table_schema.column_schemas@, *row) == Some(
                e@,
            )
            &&& result matches Err(error) ==> if key_converts(
                table_schema.column_schemas@,
                row.values@,
            ) {
                error.is(ErrorKind::ConversionError, "Table has no primary key columns"@)
                    && error.detail is None
            } else {
                error.is(ErrorKind::ConversionError, "Failed to convert row to Arrow array"@)
                    && error.detail is Some
            }
        },
{
    if key_can_be_stored(table_schema, row) {
        Some(build_pk_expr(table_schema, row))
    } else {
        None
    }
}

/// That the columns among some expressions are equal in two relations.
pub open spec fn qualified_keys(
    keys: Seq<ExprView>,
    source: Seq<char>,
    target: Seq<char>,
) -> Option<ExprView>
    decreases keys.len(),
{
    if keys.len() == 0 {
        None
    } else {
        let before = qualified_keys(keys.drop_last(), source, target);
        match keys.last() {
            ExprView::Column { relation: _, name } => {
                let condition = binary(
                    qualified_column(source, name),
                    Operator::Eq,
                    qualified_column(target, name),
                );
                match before {
                    Some(conditions) => Some(binary(conditions, Operator::And, condition)),
                    None => Some(condition),
                }
            },
            _ => before,
        }
    }
}

/// That the columns among some expressions are equal in the source and in the target of a merge.
/// There is nothing to say if none of them is a column.
///
/// The column `id` becomes `source.id = target.id`.
pub fn qualify_primary_keys(primary_keys: Vec<Expr>, source_alias: &str, target_alias: &str) -> (expr:
    Option<Expr>)
    ensures
        match (expr, qualified_keys(expr_views(primary_keys@), source_alias@, target_alias@)) {
            (Some(e), Some(predicate)) => e@ == predicate,
            (None, None) => true,
            _ => false,
        },
        expr is Some && is_plain_name(source_alias@) ==> table_reference(source_alias@) == seq![
            source_alias@,
        ],
        expr is Some && is_plain_name(target_alias@) ==> table_reference(target_alias@) == seq![
            target_alias@,
        ],
{
    let ghost keys = expr_views(primary_keys@);
    let mut qualified: Option<Expr> = None;
    let mut i: usize = 0;
    assert(keys.take(0) =~= Seq::empty());
    while i < primary_keys.len()
        invariant
            i <= primary_keys@.len(),
            keys == expr_views(primary_keys@),
            match (qualified, qualified_keys(keys.take(i as int), source_alias@, target_alias@)) {
                (Some(e), Some(predicate)) => e@ == predicate,
                (None, None) => true,
                _ => false,
            },
            qualified is Some && is_plain_name(source_alias@) ==> table_reference(source_alias@)
                == seq![source_alias@],
            qualified is Some && is_plain_name(target_alias@) ==> table_reference(target_alias@)
                == seq![target_alias@],
        decreases primary_keys@.len() - i,
    {
        proof {
            assert(keys.take(i as int + 1).drop_last() =~= keys.take(i as int));
            assert(keys.take(i as int + 1).last() == primary_keys@[i as int]@);
        }
        match &primary_keys[i] {
            Expr::Column(column) => {
                let source = Expr::Column(Column::new(source_alias, column.name.as_str()));
                let target = Expr::Column(Column::new(target_alias, column.name.as_str()));
                let condition = source.equals(target);
                qualified =
                Some(
                    match qualified {
                        None => condition,
                        Some(conditions) => conditions.and(condition),
                    },
                );
            },
            _ => {},
        }
        i += 1;
    }
    assert(keys.take(i as int) =~= keys);
    qualified
}

/// There is a predicate for the rows of a table exactly if the table has a primary key.
pub proof fn predicate_needs_primary_key(columns: Seq<ColumnSchema>, values: Seq<Cell>, n: nat)
    requires
        n <= columns.len(),
    ensures
        key_predicate(columns, values, n) is Some <==> exists|i: int|
            0 <= i < n && (#[trigger] columns[i]).primary,
    decreases n,
{
    if n > 0 {
        predicate_needs_primary_key(columns, values, (n - 1) as nat);
        if columns[n - 1].primary {
            assert(exists|i: int| 0 <= i < n && (#[trigger] columns[i]).primary);
        }
    }
}

/// The predicates for two rows of a table are equal exactly if the rows have the same values in
/// the columns of the primary key.
pub proof fn predicates_compare_keys(
    columns: Seq<ColumnSchema>,
    left: Seq<Cell>,
    right: Seq<Cell>,
    n: nat,
)
    requires
        n <= columns.len(),
    ensures
        key_predicate(columns, left, n) == key_predicate(columns, right, n) <==> forall|i: int|
            0 <= i < n && (#[trigger] columns[i]).primary ==> cell_value(columns[i], left[i])
                == cell_value(columns[i], right[i]),
    decreases n,
{
    if n > 0 {
        let before = (n - 1) as nat;
        predicates_compare_keys(columns, left, right, before);
        predicate_needs_primary_key(columns, left, before);
        predicate_needs_primary_key(columns, right, before);
        let column = columns[n - 1];
        if forall|i: int|
            0 <= i < n && (#[trigger] columns[i]).primary ==> cell_value(columns[i], left[i])
                == cell_value(columns[i], right[i]) {
            assert(columns[n - 1].primary ==> cell_value(column, left[n - 1]) == cell_value(
                column,
                right[n - 1],
            ));
        }
    }
}

/// The predicates for two rows of a table can be compared.
pub(crate) proof fn predicates_are_comparable(
    columns: Seq<ColumnSchema>,
    left: Seq<Cell>,
    right: Seq<Cell>,
    n: nat,
)
    requires
        n <= columns.len(),
        key_converts(columns, left),
    ensures
        key_predicate(columns, left, n) is Some && key_predicate(columns, right, n) is Some
            ==> comparable(
            key_predicate(columns, left, n)->0,
            key_predicate(columns, right, n)->0,
        ),
    decreases n,
{
    if n > 0 {
        let before = (n - 1) as nat;
        predicates_are_comparable(columns, left, right, before);
        predicate_needs_primary_key(columns, left, before);
        predicate_needs_primary_key(columns, right, before);
        let column = columns[n - 1];
        if column.primary {
            assert(cell_converts(column, left[n - 1]));
            reveal_with_fuel(comparable, 3);
        }
    }
}

/// Nothing is said of a merge exactly if none of the keys is a column.
pub proof fn qualified_keys_need_columns(
    keys: Seq<ExprView>,
    source: Seq<char>,
    target: Seq<char>,
)
    ensures
        qualified_keys(keys, source, target) is None <==> forall|i: int|
            0 <= i < keys.len() ==> !(#[trigger] keys[i] is Column),
    decreases keys.len(),
{
    if keys.len() > 0 {
        let before = keys.drop_last();
        qualified_keys_need_columns(before, source, target);
        if forall|i: int| 0 <= i < keys.len() ==> !(#[trigger] keys[i] is Column) {
            assert forall|i: int| 0 <= i < before.len() implies !(#[trigger] before[i] is Column) by {
                assert(before[i] == keys[i]);
            }
            assert(!(keys[keys.len() - 1] is Column));
        }
        if qualified_keys(keys, source, target) is None {
            assert forall|i: int| 0 <= i < keys.len() implies !(#[trigger] keys[i] is Column) by {
                if i < keys.len() - 1 {
                    assert(before[i] == keys[i]);
                }
            }
        }
    }
}

} // verus!
