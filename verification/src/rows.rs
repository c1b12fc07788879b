//! Query results as the JSON text the browser receives: how a column's
//! type decides the way its values are read, and how rows are written.
use vstd::prelude::*;
use crate::response::{quoted, quotes};
use crate::text::{i32_text, int_text, same_text};

verus! {

/// How the values of a column are read and written, by the column's type.
#[derive(Debug, PartialEq, Eq, Structural)]
pub enum ColumnKind {
    /// `date`: written quoted.
    Date,
    /// `time`: written quoted.
    Time,
    /// `timestamp`: written quoted.
    Timestamp,
    /// `timestamptz`: written quoted, in local time.
    TimestampTz,
    /// `char`, `varchar`, `text`, `name`: written quoted.
    Text,
    /// `int4`: written as a number.
    Int4,
    /// `bool`: written as `true` or `false`.
    Bool,
    /// `float8`: written as a number.
    Float8,
    /// PostGIS `geography` points: written as a `long`/`lat` object.
    Geography,
    /// Any other type: reported as unknown.
    Unknown,
}

/// The kind of a column whose type has object id `oid` and name `pg_type`.
pub open spec fn column_kind_spec(oid: u32, pg_type: Seq<char>) -> ColumnKind {
    if oid == 1082 {
        ColumnKind::Date
    } else if oid == 1083 {
        ColumnKind::Time
    } else if oid == 1114 {
        ColumnKind::Timestamp
    } else if oid == 1184 {
        ColumnKind::TimestampTz
    } else if oid == 18 || oid == 1043 || oid == 25 || oid == 19 {
        ColumnKind::Text
    } else if oid == 23 {
        ColumnKind::Int4
    } else if oid == 16 {
        ColumnKind::Bool
    } else if oid == 701 {
        ColumnKind::Float8
    } else if pg_type == "geography"@ {
        ColumnKind::Geography
    } else {
        ColumnKind::Unknown
    }
}

/// Classifies a column by its type's object id and name.
pub fn column_kind(oid: u32, pg_type: &str) -> (r: ColumnKind)
    ensures
        r == column_kind_spec(oid, pg_type@),
{
    if oid == 1082 {
        ColumnKind::Date
    } else if oid == 1083 {
        ColumnKind::Time
    } else if oid == 1114 {
        ColumnKind::Timestamp
    } else if oid == 1184 {
        ColumnKind::TimestampTz
    } else if oid == 18 || oid == 1043 || oid == 25 || oid == 19 {
        ColumnKind::Text
    } else if oid == 23 {
        ColumnKind::Int4
    } else if oid == 16 {
        ColumnKind::Bool
    } else if oid == 701 {
        ColumnKind::Float8
    } else if same_text(pg_type, "geography") {
        ColumnKind::Geography
    } else {
        ColumnKind::Unknown
    }
}

/// One value of a result row, as read from the database.
pub enum CellValue {
    /// SQL `NULL`.
    Null,
    /// An `int4`.
    Int4(i32),
    /// A `bool`.
    Bool(bool),
    /// A value written between quotes (dates, times, text), already rendered.
    Quoted(String),
    /// A value written as it is (floats, geography points), already rendered.
    Plain(String),
    /// A value of a type the proxy cannot read; holds the type's name.
    UnknownType(String),
}

/// A value as read from the database for a column, before it is written:
/// the kinds read as text carry what `Display` wrote for them.
pub enum Fetched {
    /// SQL `NULL`.
    Null,
    /// An `int4`.
    Int4(i32),
    /// A `bool`.
    Bool(bool),
    /// The `Display` text of a date, time, text, float or geography value.
    Text(String),
}

/// Whether a fetched value is one a column of this kind yields: `int4`
/// and `bool` columns give their own values, the other read kinds give
/// text, each may be `NULL` except geography points, which must be present;
/// an unknown column's value is not read.
pub open spec fn fetched_fits(kind: ColumnKind, fetched: Fetched) -> bool {
    match kind {
        ColumnKind::Int4 => fetched is Null || fetched is Int4,
        ColumnKind::Bool => fetched is Null || fetched is Bool,
        ColumnKind::Geography => fetched is Text,
        ColumnKind::Unknown => true,
        _ => fetched is Null || fetched is Text,
    }
}

/// The value written for a column of this kind: dates, times and text
/// between quotes, numbers and geography points as they are, `NULL` as
/// `null`, and for an unknown type the message naming the type
/// (`type_text`), whatever the value.
pub open spec fn cell_value_spec(kind: ColumnKind, fetched: Fetched, type_text: String) -> CellValue {
    match kind {
        ColumnKind::Unknown => CellValue::UnknownType(type_text),
        _ => match fetched {
            Fetched::Null => CellValue::Null,
            Fetched::Int4(i) => CellValue::Int4(i),
            Fetched::Bool(b) => CellValue::Bool(b),
            Fetched::Text(s) => match kind {
                ColumnKind::Float8 => CellValue::Plain(s),
                ColumnKind::Geography => CellValue::Plain(s),
                _ => CellValue::Quoted(s),
            },
        },
    }
}

/// The JSON text of a column of this kind with this fetched value:
/// `null` for `NULL`; an `int4` in decimal; `true`/`false`; a float or
/// geography point's text as it is; a date, time or text value between
/// quotes; for an unknown type, the quoted message naming it.
pub open spec fn json_value_spec(kind: ColumnKind, fetched: Fetched, type_text: Seq<char>) -> Seq<char> {
    if kind == ColumnKind::Unknown {
        quoted("type '"@ + type_text + "' is unknown"@)
    } else {
        match fetched {
            Fetched::Null => "null"@,
            Fetched::Int4(i) => int_text(i as int),
            Fetched::Bool(b) => if b {
                "true"@
            } else {
                "false"@
            },
            Fetched::Text(s) => if kind == ColumnKind::Float8 || kind == ColumnKind::Geography {
                s@
            } else {
                quoted(s@)
            },
        }
    }
}

/// Chooses how a fetched value of a column of kind `kind` is written;
/// `type_text` is how the column's type is displayed.
pub fn cell_value(kind: &ColumnKind, fetched: Fetched, type_text: String) -> (r: CellValue)
    requires
        fetched_fits(*kind, fetched),
    ensures
        r == cell_value_spec(*kind, fetched, type_text),
        cell_text(r) == json_value_spec(*kind, fetched, type_text@),
{
    match kind {
        ColumnKind::Unknown => CellValue::UnknownType(type_text),
        _ => match fetched {
            Fetched::Null => CellValue::Null,
            Fetched::Int4(i) => CellValue::Int4(i),
            Fetched::Bool(b) => CellValue::Bool(b),
            Fetched::Text(s) => match kind {
                ColumnKind::Float8 => CellValue::Plain(s),
                ColumnKind::Geography => CellValue::Plain(s),
                _ => CellValue::Quoted(s),
            },
        },
    }
}

/// A named value of a result row.
pub struct Column {
    /// The column's name.
    pub name: String,
    /// Its value in this row.
    pub value: CellValue,
}

/// The JSON text of a value.
pub open spec fn cell_text(v: CellValue) -> Seq<char> {
    match v {
        CellValue::Null => "null"@,
        CellValue::Int4(i) => int_text(i as int),
        CellValue::Bool(b) => if b {
            "true"@
        } else {
            "false"@
        },
        CellValue::Quoted(s) => quoted(s@),
        CellValue::Plain(s) => s@,
        CellValue::UnknownType(t) => quoted("type '"@ + t@ + "' is unknown"@),
    }
}

/// `"name":value`.
pub open spec fn column_text(c: Column) -> Seq<char> {
    quoted(c.name@) + ":"@ + cell_text(c.value)
}

/// `parts` joined by commas.
pub open spec fn joined(parts: Seq<Seq<char>>) -> Seq<char>
    decreases parts.len(),
{
    if parts.len() == 0 {
        seq![]
    } else if parts.len() == 1 {
        parts[0]
    } else {
        joined(parts.drop_last()) + ","@ + parts.last()
    }
}

/// A row as a JSON object: `{` columns joined by commas `}`.
pub open spec fn row_text(cols: Seq<Column>) -> Seq<char> {
    "{"@ + joined(cols.map_values(|c: Column| column_text(c))) + "}"@
}

/// Rows as a JSON array of objects.
pub open spec fn rows_text(rows: Seq<Vec<Column>>) -> Seq<char> {
    "["@ + joined(rows.map_values(|r: Vec<Column>| row_text(r@))) + "]"@
}

/// Writes a value as JSON text (no escaping is done).
pub fn render_cell(v: &CellValue) -> (r: String)
    ensures
        r@ == cell_text(*v),
{
    match v {
        CellValue::Null => "null".to_owned(),
        CellValue::Int4(i) => i32_text(*i),
        CellValue::Bool(b) => if *b {
            "true".to_owned()
        } else {
            "false".to_owned()
        },
        CellValue::Quoted(s) => quotes(s.as_str()),
        CellValue::Plain(s) => s.clone(),
        CellValue::UnknownType(t) => {
            let mut m = String::new();
            m.append("type '");
            m.append(t.as_str());
            m.append("' is unknown");
            quotes(m.as_str())
        },
    }
}

/// Joining one more part.
proof fn lemma_joined_push(parts: Seq<Seq<char>>, p: Seq<char>)
    ensures
        joined(parts.push(p)) == if parts.len() == 0 {
            p
        } else {
            joined(parts) + ","@ + p
        },
{
    assert(parts.push(p).drop_last() =~= parts);
}

/// Writes one row as a JSON object.
pub fn row_object(cols: &Vec<Column>) -> (r: String)
    ensures
        r@ == row_text(cols@),
{
    let mut r = String::new();
    r.append("{");
    let n = cols.len();
    let ghost parts = cols@.map_values(|c: Column| column_text(c));
    let mut i: usize = 0;
    while i < n
        invariant
            i <= n == cols@.len(),
            parts == cols@.map_values(|c: Column| column_text(c)),
            r@ == "{"@ + joined(parts.take(i as int)),
        decreases n - i,
    {
        proof {
            assert(parts.take(i + 1) =~= parts.take(i as int).push(parts[i as int]));
            lemma_joined_push(parts.take(i as int), parts[i as int]);
        }
        if i > 0 {
            r.append(",");
        }
        let c = &cols[i];
        let key = quotes(c.name.as_str());
        r.append(key.as_str());
        r.append(":");
        let value = render_cell(&c.value);
        r.append(value.as_str());
        i = i + 1;
        assert(r@ =~= "{"@ + joined(parts.take(i as int)));
    }
    r.append("}");
    assert(parts.take(n as int) =~= parts);
    r
}

/// The rows of a query result as a JSON array of objects, one object per
/// row with one `"name":value` member per column, in order. Every row
/// has at least one column.
pub fn row_to_string(data: Vec<Vec<Column>>) -> (r: String)
    requires
        forall|i: int| 0 <= i < data@.len() ==> #[trigger] data@[i]@.len() > 0,
    ensures
        r@ == rows_text(data@),
{
    let mut r = String::new();
    r.append("[");
    let n = data.len();
    let ghost parts = data@.map_values(|row: Vec<Column>| row_text(row@));
    let mut i: usize = 0;
    while i < n
        invariant
            i <= n == data@.len(),
            parts == data@.map_values(|row: Vec<Column>| row_text(row@)),
            r@ == "["@ + joined(parts.take(i as int)),
        decreases n - i,
    {
        proof {
            assert(parts.take(i + 1) =~= parts.take(i as int).push(parts[i as int]));
            lemma_joined_push(parts.take(i as int), parts[i as int]);
        }
        if i > 0 {
            r.append(",");
        }
        let obj = row_object(&data[i]);
        r.append(obj.as_str());
        i = i + 1;
        assert(r@ =~= "["@ + joined(parts.take(i as int)));
    }
    r.append("]");
    assert(parts.take(n as int) =~= parts);
    r
}

} // verus!
