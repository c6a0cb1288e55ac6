use vstd::prelude::*;

verus! {

/// Semantic type of a result column, as the data-source schema declares it.
#[derive(Clone, Copy, Debug, PartialEq, Eq, Structural)]
pub enum SemanticType {
    Text,
    Integer,
    Float,
    Boolean,
    Date,
    Time,
    DateTime,
    /// Any type outside the fixed mapping (arrays, intervals, variants, ...).
    Other,
}

/// Wire-level scalar type of a column.
#[derive(Clone, Copy, Debug, PartialEq, Eq, Structural)]
pub enum WireType {
    Text,
    Int8,
    Float8,
    Bool,
    Time,
    Date,
}

/// Transfer format of a column.
#[derive(Clone, Copy, Debug, PartialEq, Eq, Structural)]
pub enum TransferFormat {
    Text,
    Binary,
}

/// A column title with its declared semantic type.
#[derive(Debug)]
pub struct ColumnType {
    pub title: String,
    pub kind: SemanticType,
}

/// The static mapping from column titles to semantic types.
#[derive(Debug)]
pub struct Schema {
    pub columns: Vec<ColumnType>,
}

/// Wire metadata of one visible column.
#[derive(Debug)]
pub struct FieldDescriptor {
    pub name: String,
    pub wire_type: WireType,
    pub format: TransferFormat,
}

/// Mathematical form of a field descriptor.
pub struct FieldSpec {
    pub name: Seq<char>,
    pub wire_type: WireType,
    pub format: TransferFormat,
}

impl View for FieldDescriptor {
    type V = FieldSpec;

    open spec fn view(&self) -> FieldSpec {
        FieldSpec { name: self.name@, wire_type: self.wire_type, format: self.format }
    }
}

/// Error of the column describer: the column has no type in the fixed mapping.
#[derive(Clone, Copy, Debug, PartialEq, Eq, Structural)]
pub enum TypeResolutionError {
    UnknownColumn,
    UnsupportedType,
}

/// The fixed mapping from semantic types to wire types.
/// `DateTime` is carried by the `Time` wire type.
pub open spec fn wire_type_of(t: SemanticType) -> Option<WireType> {
    match t {
        SemanticType::Text => Some(WireType::Text),
        SemanticType::Integer => Some(WireType::Int8),
        SemanticType::Float => Some(WireType::Float8),
        SemanticType::Boolean => Some(WireType::Bool),
        SemanticType::Time => Some(WireType::Time),
        SemanticType::Date => Some(WireType::Date),
        SemanticType::DateTime => Some(WireType::Time),
        SemanticType::Other => None,
    }
}

/// One format for every column of a result set: text.
pub open spec fn format_at(index: int) -> TransferFormat {
    TransferFormat::Text
}

pub open spec fn schema_entries(s: Seq<ColumnType>) -> Seq<(Seq<char>, SemanticType)> {
    s.map_values(|c: ColumnType| (c.title@, c.kind))
}

/// The semantic type of the first schema entry titled `title`.
pub open spec fn lookup_type(entries: Seq<(Seq<char>, SemanticType)>, title: Seq<char>) -> Option<
    SemanticType,
>
    decreases entries.len(),
{
    if entries.len() == 0 {
        None
    } else if entries[0].0 == title {
        Some(entries[0].1)
    } else {
        lookup_type(entries.drop_first(), title)
    }
}

/// The descriptor of column `title` at position `index`, if its type is mapped.
pub open spec fn describe_spec(
    entries: Seq<(Seq<char>, SemanticType)>,
    title: Seq<char>,
    index: int,
) -> Option<FieldSpec> {
    match lookup_type(entries, title) {
        Some(t) => match wire_type_of(t) {
            Some(w) => Some(FieldSpec { name: title, wire_type: w, format: format_at(index) }),
            None => None,
        },
        None => None,
    }
}

/// Descriptors of the columns `titles[0..n]`, skipping those whose type is not mapped.
pub open spec fn describe_all_spec(
    entries: Seq<(Seq<char>, SemanticType)>,
    titles: Seq<Seq<char>>,
) -> Seq<FieldSpec>
    decreases titles.len(),
{
    if titles.len() == 0 {
        Seq::empty()
    } else {
        let n = titles.len() - 1;
        let prefix = describe_all_spec(entries, titles.take(n));
        match describe_spec(entries, titles[n], n) {
            Some(f) => prefix.push(f),
            None => prefix,
        }
    }
}

pub open spec fn titles_view(titles: Seq<String>) -> Seq<Seq<char>> {
    titles.map_values(|t: String| t@)
}

impl Schema {
    pub open spec fn entries(&self) -> Seq<(Seq<char>, SemanticType)> {
        schema_entries(self.columns@)
    }

    /// The declared type of `title`, if the schema has it.
    pub fn type_of(&self, title: &str) -> (r: Option<SemanticType>)
        ensures
            r == lookup_type(self.entries(), title@),
    {
        let wanted = title.to_owned();
        let mut i: usize = 0;
        assert(self.entries().skip(0) =~= self.entries());
        while i < self.columns.len()
            invariant
                wanted@ == title@,
                i <= self.columns@.len(),
                lookup_type(self.entries(), title@) == lookup_type(
                    self.entries().skip(i as int),
                    title@,
                ),
            decreases self.columns@.len() - i,
        {
            let c = &self.columns[i];
            proof {
                let rest = self.entries().skip(i as int);
                assert(rest.drop_first() =~= self.entries().skip(i + 1));
            }
            if c.title == wanted {
                return Some(c.kind);
            }
            i = i + 1;
        }
        proof {
            assert(self.entries().skip(i as int).len() == 0);
        }
        None
    }
}

/// The wire type that carries values of semantic type `t`.
pub fn wire_type(t: SemanticType) -> (r: Result<WireType, TypeResolutionError>)
    ensures
        match wire_type_of(t) {
            Some(w) => r == Ok::<WireType, TypeResolutionError>(w),
            None => r == Err::<WireType, TypeResolutionError>(TypeResolutionError::UnsupportedType),
        },
{
    match t {
        SemanticType::Text => Ok(WireType::Text),
        SemanticType::Integer => Ok(WireType::Int8),
        SemanticType::Float => Ok(WireType::Float8),
        SemanticType::Boolean => Ok(WireType::Bool),
        SemanticType::Time => Ok(WireType::Time),
        SemanticType::Date => Ok(WireType::Date),
        SemanticType::DateTime => Ok(WireType::Time),
        SemanticType::Other => Err(TypeResolutionError::UnsupportedType),
    }
}

/// The transfer format of the column at `index`: uniform text.
pub fn format_for(index: usize) -> (r: TransferFormat)
    ensures
        r == format_at(index as int),
{
    TransferFormat::Text
}

/// Describes the column `title` at position `index` of a result set.
pub fn encode_column(schema: &Schema, title: &str, index: usize) -> (r: Result<
    FieldDescriptor,
    TypeResolutionError,
>)
    ensures
        match describe_spec(schema.entries(), title@, index as int) {
            Some(f) => r is Ok && r->Ok_0@ == f,
            None => r is Err,
        },
        lookup_type(schema.entries(), title@) is None ==> r == Err::<
            FieldDescriptor,
            TypeResolutionError,
        >(TypeResolutionError::UnknownColumn),
{
    match schema.type_of(title) {
        None => Err(TypeResolutionError::UnknownColumn),
        Some(t) => match wire_type(t) {
            Ok(w) => Ok(FieldDescriptor { name: title.to_owned(), wire_type: w, format: format_for(index) }),
            Err(e) => Err(e),
        },
    }
}

/// Describes every column of `titles` in order, skipping the columns whose type is not mapped.
pub fn describe_columns(schema: &Schema, titles: &Vec<String>) -> (r: Vec<FieldDescriptor>)
    ensures
        r@.map_values(|f: FieldDescriptor| f@) == describe_all_spec(schema.entries(), titles_view(titles@)),
{
    let mut out: Vec<FieldDescriptor> = Vec::new();
    let mut i: usize = 0;
    while i < titles.len()
        invariant
            i <= titles@.len(),
            out@.map_values(|f: FieldDescriptor| f@) == describe_all_spec(
                schema.entries(),
                titles_view(titles@).take(i as int),
            ),
        decreases titles@.len() - i,
    {
        let ghost before = out@;
        proof {
            assert(titles_view(titles@).take(i + 1).take(i as int) =~= titles_view(titles@).take(i as int));
        }
        match encode_column(schema, titles[i].as_str(), i) {
            Ok(f) => {
                out.push(f);
                assert(out@.map_values(|f: FieldDescriptor| f@) =~= before.map_values(|f: FieldDescriptor| f@).push(out@[before.len() as int]@)) by {
                    assert(out@ == before.push(out@[before.len() as int]));
                }
            },
            Err(_) => {},
        }
        i = i + 1;
    }
    proof {
        assert(titles_view(titles@).take(i as int) =~= titles_view(titles@));
    }
    out
}

} // verus!
