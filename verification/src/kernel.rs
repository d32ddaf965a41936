//! The types of Delta tables.

use vstd::prelude::*;

verus! {

/// The greatest number of digits of a decimal number.
pub const MAX_DECIMAL_PRECISION: u8 = 38;

/// A type of decimal numbers.
#[derive(Debug, Clone, Copy, PartialEq, Eq, Structural)]
pub struct DecimalType {
    precision: u8,
    scale: u8,
}

impl DecimalType {
    #[verifier::type_invariant]
    spec fn is_valid(self) -> bool {
        is_decimal(self.precision, self.scale)
    }

    /// The number of digits.
    pub closed spec fn precision_of(&self) -> u8 {
        self.precision
    }

    /// The number of digits behind the point.
    pub closed spec fn scale_of(&self) -> u8 {
        self.scale
    }

    /// Decimal numbers with so many digits, of which so many are behind the point: there are from
    /// one to 38 digits, and not more behind the point than in all.
    pub fn try_new(precision: u8, scale: u8) -> (decimal: Option<DecimalType>)
        ensures
            decimal is Some <==> is_decimal(precision, scale),
            decimal matches Some(d) ==> d.precision_of() == precision && d.scale_of() == scale,
    {
        if 0 < precision && precision <= MAX_DECIMAL_PRECISION && scale <= precision {
            Some(DecimalType { precision, scale })
        } else {
            None
        }
    }

    /// The number of digits.
    pub fn precision(&self) -> (precision: u8)
        ensures
            precision == self.precision_of(),
            0 < precision <= MAX_DECIMAL_PRECISION,
    {
        proof {
            use_type_invariant(*self);
        }
        self.precision
    }

    /// The number of digits behind the point.
    pub fn scale(&self) -> (scale: u8)
        ensures
            scale == self.scale_of(),
            scale <= self.precision_of(),
    {
        proof {
            use_type_invariant(*self);
        }
        self.scale
    }
}

/// Whether there are decimal numbers with so many digits, of which so many are behind the point.
pub open spec fn is_decimal(precision: u8, scale: u8) -> bool {
    0 < precision <= MAX_DECIMAL_PRECISION && scale <= precision
}

/// A type of single values.
#[derive(Debug, Clone, Copy, PartialEq, Eq, Structural)]
pub enum PrimitiveType {
    /// Texts.
    String,
    /// 64-bit integers.
    Long,
    /// 32-bit integers.
    Integer,
    /// 16-bit integers.
    Short,
    /// 32-bit floats.
    Float,
    /// 64-bit floats.
    Double,
    /// Truth values.
    Boolean,
    /// Raw bytes.
    Binary,
    /// Days.
    Date,
    /// Instants.
    Timestamp,
    /// Timestamps without a time zone.
    TimestampNtz,
    /// Decimal numbers.
    Decimal(DecimalType),
}

/// A type of lists.
#[derive(Debug, Clone, Copy, PartialEq, Eq, Structural)]
pub struct ArrayType {
    /// The type of the elements.
    pub element_type: PrimitiveType,
    /// Whether elements may be missing.
    pub contains_null: bool,
}

impl ArrayType {
    /// Lists of elements of a type, which may be missing or not.
    pub fn new(element_type: PrimitiveType, contains_null: bool) -> (array_type: ArrayType)
        ensures
            array_type == (ArrayType { element_type, contains_null }),
    {
        ArrayType { element_type, contains_null }
    }
}

/// The type of a column.
#[derive(Debug, Clone, Copy, PartialEq, Eq, Structural)]
pub enum KernelType {
    /// Single values.
    Primitive(PrimitiveType),
    /// Lists of values.
    Array(ArrayType),
}

/// A column of a Delta table.
#[derive(Debug, Clone, PartialEq, Eq)]
pub struct StructField {
    /// The name of the column.
    pub name: String,
    /// The type of its values.
    pub data_type: KernelType,
    /// Whether values may be missing.
    pub nullable: bool,
}

impl StructField {
    /// A column with this name, type and nullability.
    pub fn new(name: &String, data_type: KernelType, nullable: bool) -> (field: StructField)
        ensures
            field.name@ == name@,
            field.data_type == data_type,
            field.nullable == nullable,
    {
        StructField { name: name.clone(), data_type, nullable }
    }
}

/// The columns of a Delta table. No two of them have the same name.
#[derive(Debug)]
pub struct StructType {
    fields: Vec<StructField>,
}

/// A column of a Delta table, as a mathematical value.
pub struct StructFieldView {
    /// The name of the column.
    pub name: Seq<char>,
    /// The type of its values.
    pub data_type: KernelType,
    /// Whether values may be missing.
    pub nullable: bool,
}

impl View for StructField {
    type V = StructFieldView;

    open spec fn view(&self) -> StructFieldView {
        StructFieldView { name: self.name@, data_type: self.data_type, nullable: self.nullable }
    }
}

/// What columns stand for.
pub open spec fn field_views(fields: Seq<StructField>) -> Seq<StructFieldView> {
    fields.map_values(|field: StructField| field@)
}

/// The first column with a name, or the number of columns if there is none.
pub open spec fn position(fields: Seq<StructFieldView>, name: Seq<char>) -> int
    decreases fields.len(),
{
    if fields.len() == 0 || fields[0].name == name {
        0
    } else {
        1 + position(fields.skip(1), name)
    }
}

/// Columns after another one is added: it takes the place of the one with its name, or the last
/// place if there is none.
pub open spec fn with_field(fields: Seq<StructFieldView>, field: StructFieldView) -> Seq<
    StructFieldView,
> {
    let at = position(fields, field.name);
    if at < fields.len() {
        fields.update(at, field)
    } else {
        fields.push(field)
    }
}

/// Columns added one after the other.
pub open spec fn collected(fields: Seq<StructFieldView>) -> Seq<StructFieldView>
    decreases fields.len(),
{
    if fields.len() == 0 {
        Seq::empty()
    } else {
        with_field(collected(fields.drop_last()), fields.last())
    }
}

/// Whether no two columns have the same name.
pub open spec fn names_differ(fields: Seq<StructFieldView>) -> bool {
    forall|i: int, j: int|
        0 <= i < j < fields.len() ==> (#[trigger] fields[i]).name != (#[trigger] fields[j]).name
}

/// The position of a name is that of the first column with it.
pub proof fn position_is_first(fields: Seq<StructFieldView>, name: Seq<char>)
    ensures
        0 <= position(fields, name) <= fields.len(),
        position(fields, name) < fields.len() ==> fields[position(fields, name)].name == name,
        forall|i: int|
            0 <= i < position(fields, name) ==> (#[trigger] fields[i]).name != name,
    decreases fields.len(),
{
    if fields.len() > 0 && fields[0].name != name {
        let rest = fields.skip(1);
        position_is_first(rest, name);
        assert forall|i: int| 0 <= i < position(fields, name) implies (#[trigger] fields[i]).name
            != name by {
            if i > 0 {
                assert(rest[i - 1] == fields[i]);
            }
        }
    }
}

proof fn position_is_unique(fields: Seq<StructFieldView>, name: Seq<char>, k: int)
    requires
        0 <= k <= fields.len(),
        k < fields.len() ==> fields[k].name == name,
        forall|i: int| 0 <= i < k ==> (#[trigger] fields[i]).name != name,
    ensures
        position(fields, name) == k,
{
    position_is_first(fields, name);
    let p = position(fields, name);
    if p < k {
        assert(fields[p].name != name);
    }
    if k < p {
        assert(fields[k].name != name);
    }
}

proof fn with_field_keeps_names_apart(fields: Seq<StructFieldView>, field: StructFieldView)
    requires
        names_differ(fields),
    ensures
        names_differ(with_field(fields, field)),
{
    position_is_first(fields, field.name);
    let at = position(fields, field.name);
    let after = with_field(fields, field);
    assert forall|i: int, j: int| 0 <= i < j < after.len() implies (#[trigger] after[i]).name != (
    #[trigger] after[j]).name by {
        if at < fields.len() {
            if i == at {
                assert(fields[i].name != fields[j].name);
            } else if j == at {
                assert(fields[i].name != fields[j].name);
            } else {
                assert(fields[i].name != fields[j].name);
            }
        } else if j < fields.len() {
            assert(fields[i].name != fields[j].name);
        }
    }
}

/// Columns whose names differ are collected as they are.
pub proof fn different_fields_are_kept(fields: Seq<StructFieldView>)
    requires
        names_differ(fields),
    ensures
        collected(fields) == fields,
    decreases fields.len(),
{
    if fields.len() > 0 {
        let rest = fields.drop_last();
        assert forall|i: int, j: int| 0 <= i < j < rest.len() implies (#[trigger] rest[i]).name != (
        #[trigger] rest[j]).name by {
            assert(fields[i].name != fields[j].name);
        }
        different_fields_are_kept(rest);
        let last = fields.last();
        assert forall|i: int| 0 <= i < rest.len() implies (#[trigger] rest[i]).name != last.name by {
            assert(fields[i].name != fields[fields.len() - 1].name);
        }
        position_is_unique(rest, last.name, rest.len() as int);
        assert(rest.push(last) =~= fields);
    } else {
        assert(fields =~= Seq::empty());
    }
}

impl View for StructType {
    type V = Seq<StructFieldView>;

    closed spec fn view(&self) -> Seq<StructFieldView> {
        field_views(self.fields@)
    }
}

impl StructType {
    #[verifier::type_invariant]
    spec fn is_valid(self) -> bool {
        names_differ(field_views(self.fields@))
    }

    fn position_of(fields: &Vec<StructField>, name: &String) -> (at: usize)
        ensures
            at == position(field_views(fields@), name@),
            at <= fields@.len(),
    {
        let ghost views = field_views(fields@);
        let mut i: usize = 0;
        while i < fields.len()
            invariant
                i <= fields@.len(),
                views == field_views(fields@),
                forall|k: int| 0 <= k < i ==> (#[trigger] views[k]).name != name@,
            decreases fields@.len() - i,
        {
            if fields[i].name == *name {
                proof {
                    position_is_unique(views, name@, i as int);
                }
                return i;
            }
            i += 1;
        }
        proof {
            position_is_unique(views, name@, i as int);
        }
        i
    }

    /// The columns, where of two columns with one name the later one counts, in the place of the
    /// earlier one.
    pub fn new(fields: Vec<StructField>) -> (schema: StructType)
        ensures
            schema@ == collected(field_views(fields@)),
    {
        let ghost views = field_views(fields@);
        let mut kept: Vec<StructField> = Vec::new();
        let mut i: usize = 0;
        assert(field_views(kept@) =~= collected(views.take(0)));
        while i < fields.len()
            invariant
                i <= fields@.len(),
                views == field_views(fields@),
                field_views(kept@) == collected(views.take(i as int)),
                names_differ(field_views(kept@)),
            decreases fields@.len() - i,
        {
            let field = &fields[i];
            let ghost before = field_views(kept@);
            proof {
                with_field_keeps_names_apart(before, field@);
                assert(views.take(i as int + 1).drop_last() =~= views.take(i as int));
                assert(views.take(i as int + 1).last() == field@);
            }
            let copy = StructField {
                name: field.name.clone(),
                data_type: field.data_type,
                nullable: field.nullable,
            };
            let at: usize = Self::position_of(&kept, &field.name);
            if at < kept.len() {
                kept.set(at, copy);
                assert(field_views(kept@) =~= before.update(at as int, field@));
            } else {
                kept.push(copy);
                assert(field_views(kept@) =~= before.push(field@));
            }
            i += 1;
        }
        assert(views.take(i as int) =~= views);
        StructType { fields: kept }
    }

    /// The columns, or the name of the first column that has the name of an earlier one.
    pub fn try_new(fields: Vec<StructField>) -> (schema: Result<StructType, String>)
        ensures
            schema is Ok <==> names_differ(field_views(fields@)),
            schema matches Ok(s) ==> s@ == field_views(fields@),
            schema matches Err(name) ==> exists|i: int, j: int|
                {
                    &&& 0 <= i < j < fields@.len()
                    &&& name@ == #[trigger] fields@[i].name@
                    &&& name@ == #[trigger] fields@[j].name@
                    &&& names_differ(field_views(fields@).take(j))
                },
    {
        let ghost views = field_views(fields@);
        let mut i: usize = 0;
        while i < fields.len()
            invariant
                i <= fields@.len(),
                views == field_views(fields@),
                names_differ(views.take(i as int)),
            decreases fields@.len() - i,
        {
            let mut j: usize = 0;
            while j < i
                invariant
                    j <= i < fields@.len(),
                    views == field_views(fields@),
                    names_differ(views.take(i as int)),
                    forall|k: int| 0 <= k < j ==> (#[trigger] views[k]).name != views[i as int].name,
                decreases i - j,
            {
                if fields[j].name == fields[i].name {
                    assert(views[j as int].name == views[i as int].name);
                    assert(fields@[j as int].name@ == fields@[i as int].name@);
                    return Err(fields[i].name.clone());
                }
                j += 1;
            }
            assert(names_differ(views.take(i as int + 1))) by {
                let with = views.take(i as int + 1);
                let before = views.take(i as int);
                assert forall|a: int, b: int| 0 <= a < b < with.len() implies (
                #[trigger] with[a]).name != (#[trigger] with[b]).name by {
                    if b < i {
                        assert(before[a].name != before[b].name);
                    } else {
                        assert(views[a].name != views[i as int].name);
                    }
                }
            }
            i += 1;
        }
        assert(views.take(i as int) =~= views);
        Ok(StructType { fields })
    }

    /// The columns, in order. No two of them have the same name.
    pub fn fields(&self) -> (fields: &Vec<StructField>)
        ensures
            field_views(fields@) == self@,
            names_differ(self@),
    {
        proof {
            use_type_invariant(self);
        }
        &self.fields
    }

    /// The columns, in order. No two of them have the same name.
    pub fn into_fields(self) -> (fields: Vec<StructField>)
        ensures
            field_views(fields@) == self@,
            names_differ(self@),
    {
        proof {
            use_type_invariant(&self);
        }
        self.fields
    }
}

} // verus!
