use vstd::prelude::*;

verus! {

/// A typed value produced by the query engine.
///
/// Dates and times are held in their text rendering; a float is held as its
/// IEEE-754 bit pattern.
#[derive(Debug)]
pub enum Value {
    Text(String),
    Integer(i64),
    Float(u64),
    Boolean(bool),
    Date(String),
    Time(String),
    DateTime(String),
    /// A null, or a value of a kind outside the fixed set.
    Null,
}

/// One row of values, aligned with the result's column titles.
#[derive(Debug)]
pub struct Row {
    pub values: Vec<Value>,
}

/// One column value as it goes on the wire.
#[derive(Debug)]
pub enum WireValue {
    Text(String),
    Int8(i64),
    Float8(u64),
    Bool(bool),
    Null,
}

/// One encoded row.
#[derive(Debug)]
pub struct WireRow {
    pub fields: Vec<WireValue>,
}

/// The wire encoding of one value: text renderings for text and calendar
/// values, native encodings for numbers and booleans, SQL null otherwise.
pub open spec fn encode_spec(v: Value) -> WireValue {
    match v {
        Value::Text(s) => WireValue::Text(s),
        Value::Integer(i) => WireValue::Int8(i),
        Value::Float(b) => WireValue::Float8(b),
        Value::Boolean(b) => WireValue::Bool(b),
        Value::Date(s) => WireValue::Text(s),
        Value::Time(s) => WireValue::Text(s),
        Value::DateTime(s) => WireValue::Text(s),
        Value::Null => WireValue::Null,
    }
}

pub open spec fn encode_all_spec(vs: Seq<Value>) -> Seq<WireValue> {
    vs.map_values(|v: Value| encode_spec(v))
}

impl Value {
    /// A copy of this value.
    pub fn duplicate(&self) -> (r: Value)
        ensures
            r == *self,
    {
        match self {
            Value::Text(s) => Value::Text(s.clone()),
            Value::Integer(i) => Value::Integer(*i),
            Value::Float(b) => Value::Float(*b),
            Value::Boolean(b) => Value::Boolean(*b),
            Value::Date(s) => Value::Date(s.clone()),
            Value::Time(s) => Value::Time(s.clone()),
            Value::DateTime(s) => Value::DateTime(s.clone()),
            Value::Null => Value::Null,
        }
    }
}

/// Encodes one value for the wire.
pub fn encode_value(v: &Value) -> (r: WireValue)
    ensures
        r == encode_spec(*v),
{
    match v {
        Value::Text(s) => WireValue::Text(s.clone()),
        Value::Integer(i) => WireValue::Int8(*i),
        Value::Float(b) => WireValue::Float8(*b),
        Value::Boolean(b) => WireValue::Bool(*b),
        Value::Date(s) => WireValue::Text(s.clone()),
        Value::Time(s) => WireValue::Text(s.clone()),
        Value::DateTime(s) => WireValue::Text(s.clone()),
        Value::Null => WireValue::Null,
    }
}

/// Encodes every value of `row`, in order.
pub fn encode_row(row: &Row) -> (r: WireRow)
    ensures
        r.fields@ == encode_all_spec(row.values@),
{
    let mut fields: Vec<WireValue> = Vec::new();
    let mut i: usize = 0;
    while i < row.values.len()
        invariant
            i <= row.values@.len(),
            fields@ == encode_all_spec(row.values@.take(i as int)),
        decreases row.values@.len() - i,
    {
        fields.push(encode_value(&row.values[i]));
        i = i + 1;
        assert(fields@ =~= encode_all_spec(row.values@.take(i as int)));
    }
    assert(row.values@.take(i as int) =~= row.values@);
    WireRow { fields }
}

/// Encodes every row, preserving their order.
pub fn encode_rows(rows: &Vec<Row>) -> (r: Vec<WireRow>)
    ensures
        r@.len() == rows@.len(),
        forall|k: int| 0 <= k < rows@.len() ==> #[trigger] r@[k].fields@ == encode_all_spec(rows@[k].values@),
{
    let mut out: Vec<WireRow> = Vec::new();
    let mut i: usize = 0;
    while i < rows.len()
        invariant
            i <= rows@.len(),
            out@.len() == i,
            forall|k: int| 0 <= k < i ==> #[trigger] out@[k].fields@ == encode_all_spec(rows@[k].values@),
        decreases rows@.len() - i,
    {
        out.push(encode_row(&rows[i]));
        i = i + 1;
    }
    out
}

} // verus!
