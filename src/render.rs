use vstd::prelude::*;

use crate::delimited::{delimited_text, table_views, to_delimited_text};
use crate::schema::{merge_descriptors, unified, views};
use crate::text::{
    bool_string, bool_text, bytes_string, bytes_text, count_text, decimal, digits, int_text,
};
use crate::value::{DynamicValue, Span};

verus! {

/// Why a value could not be turned into delimited text.
#[derive(Debug, Clone, Copy, PartialEq, Eq, Structural)]
pub enum RenderError {
    /// The value holds a variant that has no text form; the span is where
    /// that variant came from.
    UnsupportedValue(Span),
    /// The in-memory delimited-text encoder failed.
    EncodingFailure,
}

/// `n` followed by a noun, plural unless `n` is one.
pub open spec fn counted(n: nat, noun: Seq<char>) -> Seq<char> {
    digits(n) + seq![' '] + noun + (if n == 1 { seq![] } else { seq!['s'] })
}

/// The abbreviated text of a nested list.
pub open spec fn list_summary(n: nat) -> Seq<char> {
    seq!['[', 'l', 'i', 's', 't', ' '] + counted(n, seq!['i', 't', 'e', 'm']) + seq![']']
}

/// The abbreviated text of a nested list whose elements are all records.
pub open spec fn table_summary(n: nat) -> Seq<char> {
    seq!['[', 't', 'a', 'b', 'l', 'e', ' '] + counted(n, seq!['r', 'o', 'w']) + seq![']']
}

/// Whether a list is a table: it has elements, and every one is a record.
pub open spec fn all_records(vs: Seq<DynamicValue>) -> bool {
    vs.len() > 0 && forall|i: int| 0 <= i < vs.len() ==> (#[trigger] vs[i]) is Record
}

/// The abbreviated text of a nested record.
pub open spec fn record_summary(n: nat) -> Seq<char> {
    seq!['{', 'r', 'e', 'c', 'o', 'r', 'd', ' '] + counted(n, seq!['f', 'i', 'e', 'l', 'd'])
        + seq!['}']
}

/// Whether a value has a cell text at all.
pub open spec fn supported(v: DynamicValue) -> bool {
    !(v is Unsupported)
}

/// The text of one cell holding `v`; empty for nothing (and for an unsupported value,
/// which never reaches a cell).
pub open spec fn cell_text(v: DynamicValue) -> Seq<char> {
    match v {
        DynamicValue::String(s) => s@,
        DynamicValue::Bool(b) => bool_text(b),
        DynamicValue::Int(i) => decimal(i as int),
        DynamicValue::Float(t) => t@,
        DynamicValue::Duration(t) => t@,
        DynamicValue::Filesize(t) => t@,
        DynamicValue::Binary(b) => bytes_text(b@),
        DynamicValue::Date(t) => t@,
        DynamicValue::CellPath(t) => t@,
        DynamicValue::Error(t) => t@,
        DynamicValue::Custom(t) => t@,
        DynamicValue::Record { cols, .. } => record_summary(cols.len() as nat),
        DynamicValue::List(vs) => if all_records(vs@) {
            table_summary(vs.len() as nat)
        } else {
            list_summary(vs.len() as nat)
        },
        DynamicValue::Nothing => seq![],
        DynamicValue::Unsupported(_) => seq![],
    }
}

/// Renders one value as the text of a cell.
pub fn to_string_tagged_value(v: &DynamicValue) -> (r: Result<String, RenderError>)
    ensures
        match r {
            Ok(s) => supported(*v) && s@ == cell_text(*v),
            Err(e) => !supported(*v) && e == RenderError::UnsupportedValue(v->Unsupported_0),
        },
{
    match v {
        DynamicValue::String(s) => Ok(s.clone()),
        DynamicValue::Bool(b) => Ok(bool_string(*b)),
        DynamicValue::Int(i) => Ok(int_text(*i)),
        DynamicValue::Float(t) => Ok(t.clone()),
        DynamicValue::Duration(t) => Ok(t.clone()),
        DynamicValue::Filesize(t) => Ok(t.clone()),
        DynamicValue::Binary(b) => Ok(bytes_string(b)),
        DynamicValue::Date(t) => Ok(t.clone()),
        DynamicValue::CellPath(t) => Ok(t.clone()),
        DynamicValue::Error(t) => Ok(t.clone()),
        DynamicValue::Custom(t) => Ok(t.clone()),
        DynamicValue::Record { cols, .. } => Ok(record_text(cols.len())),
        DynamicValue::List(vs) => if is_table_list(vs) {
            Ok(table_text(vs.len()))
        } else {
            Ok(list_text(vs.len()))
        },
        DynamicValue::Nothing => Ok(String::new()),
        DynamicValue::Unsupported(span) => Err(RenderError::UnsupportedValue(*span)),
    }
}

/// `open`, the count with its noun, then `close`.
fn summary_text(open: &str, n: usize, noun: &str, close: &str) -> (r: String)
    ensures
        r@ == open@ + counted(n as nat, noun@) + close@,
{
    proof {
        reveal_strlit(" ");
        reveal_strlit("s");
    }
    assert(" "@ =~= seq![' ']) by {
        assert(" "@.len() == 1);
        assert(" "@[0] == ' ');
    }
    assert("s"@ =~= seq!['s']) by {
        assert("s"@.len() == 1);
        assert("s"@[0] == 's');
    }
    let mut r = String::from_str(open);
    let d = count_text(n);
    r.append(d.as_str());
    r.append(" ");
    r.append(noun);
    if n != 1 {
        r.append("s");
    }
    r.append(close);
    r
}

fn record_text(n: usize) -> (r: String)
    ensures
        r@ == record_summary(n as nat),
{
    proof {
        reveal_strlit("{record ");
        reveal_strlit("field");
        reveal_strlit("}");
    }
    assert("{record "@ =~= seq!['{', 'r', 'e', 'c', 'o', 'r', 'd', ' ']) by {
        assert("{record "@.len() == 8);
        assert("{record "@[0] == '{');
        assert("{record "@[1] == 'r');
        assert("{record "@[2] == 'e');
        assert("{record "@[3] == 'c');
        assert("{record "@[4] == 'o');
        assert("{record "@[5] == 'r');
        assert("{record "@[6] == 'd');
        assert("{record "@[7] == ' ');
    }
    assert("field"@ =~= seq!['f', 'i', 'e', 'l', 'd']) by {
        assert("field"@.len() == 5);
        assert("field"@[0] == 'f');
        assert("field"@[1] == 'i');
        assert("field"@[2] == 'e');
        assert("field"@[3] == 'l');
        assert("field"@[4] == 'd');
    }
    assert("}"@ =~= seq!['}']) by {
        assert("}"@.len() == 1);
        assert("}"@[0] == '}');
    }
    let r = summary_text("{record ", n, "field", "}");
    assert(r@ =~= record_summary(n as nat));
    r
}

fn list_text(n: usize) -> (r: String)
    ensures
        r@ == list_summary(n as nat),
{
    proof {
        reveal_strlit("[list ");
        reveal_strlit("item");
        reveal_strlit("]");
    }
    assert("[list "@ =~= seq!['[', 'l', 'i', 's', 't', ' ']) by {
        assert("[list "@.len() == 6);
        assert("[list "@[0] == '[');
        assert("[list "@[1] == 'l');
        assert("[list "@[2] == 'i');
        assert("[list "@[3] == 's');
        assert("[list "@[4] == 't');
        assert("[list "@[5] == ' ');
    }
    assert("item"@ =~= seq!['i', 't', 'e', 'm']) by {
        assert("item"@.len() == 4);
        assert("item"@[0] == 'i');
        assert("item"@[1] == 't');
        assert("item"@[2] == 'e');
        assert("item"@[3] == 'm');
    }
    assert("]"@ =~= seq![']']) by {
        assert("]"@.len() == 1);
        assert("]"@[0] == ']');
    }
    let r = summary_text("[list ", n, "item", "]");
    assert(r@ =~= list_summary(n as nat));
    r
}

fn table_text(n: usize) -> (r: String)
    ensures
        r@ == table_summary(n as nat),
{
    proof {
        reveal_strlit("[table ");
        reveal_strlit("row");
        reveal_strlit("]");
    }
    assert("[table "@ =~= seq!['[', 't', 'a', 'b', 'l', 'e', ' ']) by {
        assert("[table "@.len() == 7);
        assert("[table "@[0] == '[');
        assert("[table "@[1] == 't');
        assert("[table "@[2] == 'a');
        assert("[table "@[3] == 'b');
        assert("[table "@[4] == 'l');
        assert("[table "@[5] == 'e');
        assert("[table "@[6] == ' ');
    }
    assert("row"@ =~= seq!['r', 'o', 'w']) by {
        assert("row"@.len() == 3);
        assert("row"@[0] == 'r');
        assert("row"@[1] == 'o');
        assert("row"@[2] == 'w');
    }
    assert("]"@ =~= seq![']']) by {
        assert("]"@.len() == 1);
        assert("]"@[0] == ']');
    }
    let r = summary_text("[table ", n, "row", "]");
    assert(r@ =~= table_summary(n as nat));
    r
}

fn is_table_list(vs: &Vec<DynamicValue>) -> (r: bool)
    ensures
        r == all_records(vs@),
{
    if vs.len() == 0 {
        return false;
    }
    let mut i: usize = 0;
    while i < vs.len()
        invariant
            i <= vs@.len(),
            forall|a: int| 0 <= a < i ==> (#[trigger] vs@[a]) is Record,
        decreases vs@.len() - i,
    {
        match &vs[i] {
            DynamicValue::Record { .. } => {},
            _ => {
                return false;
            },
        }
        i = i + 1;
    }
    true
}


/// How many field name and value pairs a record has.
pub open spec fn pair_count(cols: Seq<String>, vals: Seq<DynamicValue>) -> int {
    if cols.len() < vals.len() {
        cols.len() as int
    } else {
        vals.len() as int
    }
}

/// The value paired with the first field called `name`, if any.
pub open spec fn lookup(cols: Seq<String>, vals: Seq<DynamicValue>, name: Seq<char>) -> Option<
    DynamicValue,
>
    decreases cols.len(),
{
    if cols.len() == 0 || vals.len() == 0 {
        None
    } else if cols[0]@ == name {
        Some(vals[0])
    } else {
        lookup(cols.drop_first(), vals.drop_first(), name)
    }
}

/// The field `name` of an element; only records have fields.
pub open spec fn field_of(v: DynamicValue, name: Seq<char>) -> Option<DynamicValue> {
    match v {
        DynamicValue::Record { cols, vals } => lookup(cols@, vals@, name),
        _ => None,
    }
}

/// The cell of an element under the column `name`; empty where the field is missing.
pub open spec fn field_text(v: DynamicValue, name: Seq<char>) -> Seq<char> {
    match field_of(v, name) {
        Some(x) => cell_text(x),
        None => seq![],
    }
}

pub open spec fn field_supported(v: DynamicValue, name: Seq<char>) -> bool {
    match field_of(v, name) {
        Some(x) => supported(x),
        None => true,
    }
}

/// Whether the value is laid out as rows of a table (a record or a list).
pub open spec fn is_table(v: DynamicValue) -> bool {
    v is Record || v is List
}

/// Whether every cell that the value's rows hold has a text.
pub open spec fn renders(v: DynamicValue) -> bool {
    match v {
        DynamicValue::Record { cols, vals } => forall|i: int|
            0 <= i < pair_count(cols@, vals@) ==> supported(#[trigger] vals@[i]),
        DynamicValue::List(vs) => {
            let s = unified(vs@);
            if s.len() == 0 {
                forall|i: int| 0 <= i < vs@.len() ==> supported(#[trigger] vs@[i])
            } else {
                forall|i: int, j: int|
                    0 <= i < vs@.len() && 0 <= j < s.len() ==> field_supported(
                        #[trigger] vs@[i],
                        #[trigger] s[j],
                    )
            }
        },
        _ => supported(v),
    }
}

/// Whether the first cell, in row order, of the value's rows that holds an
/// unsupported value holds one from `span`.
pub open spec fn located(v: DynamicValue, span: Span) -> bool {
    let bad = DynamicValue::Unsupported(span);
    match v {
        DynamicValue::Record { cols, vals } => exists|i: int|
            0 <= i < pair_count(cols@, vals@) && #[trigger] vals@[i] == bad && forall|k: int|
                0 <= k < i ==> supported(#[trigger] vals@[k]),
        DynamicValue::List(vs) => {
            let s = unified(vs@);
            if s.len() == 0 {
                exists|i: int|
                    0 <= i < vs@.len() && #[trigger] vs@[i] == bad && forall|k: int|
                        0 <= k < i ==> supported(#[trigger] vs@[k])
            } else {
                exists|i: int, j: int|
                    0 <= i < vs@.len() && 0 <= j < s.len() && field_of(
                        #[trigger] vs@[i],
                        #[trigger] s[j],
                    ) == Some(bad) && (forall|a: int, c: int|
                        0 <= a < i && 0 <= c < s.len() ==> field_supported(
                            #[trigger] vs@[a],
                            #[trigger] s[c],
                        )) && (forall|c: int| 0 <= c < j ==> field_supported(vs@[i], #[trigger] s[c]))
            }
        },
        _ => v == bad,
    }
}

/// Rendering one value twice gives the same result: the text is fixed by the
/// value, and so is the location that a failure reports.
pub proof fn lemma_render_repeatable(v: DynamicValue, a: Span, b: Span)
    requires
        located(v, a),
        located(v, b),
    ensures
        a == b,
{
}

/// The rows of intermediate text for a value.
///
/// A record gives its field names and then its cells. A list gives the unified
/// field names of its records and then one row per element, or, where no
/// element is a record, one row of the elements' cells. Anything else gives
/// one cell.
pub open spec fn rows_of(v: DynamicValue) -> Seq<Seq<Seq<char>>> {
    match v {
        DynamicValue::Record { cols, vals } => {
            let n = pair_count(cols@, vals@);
            seq![views(cols@).take(n), Seq::new(n as nat, |i: int| cell_text(vals@[i]))]
        },
        DynamicValue::List(vs) => {
            let s = unified(vs@);
            if s.len() == 0 {
                seq![Seq::new(vs@.len(), |i: int| cell_text(vs@[i]))]
            } else {
                seq![s] + Seq::new(
                    vs@.len(),
                    |i: int| Seq::new(s.len(), |j: int| field_text(vs@[i], s[j])),
                )
            }
        },
        _ => seq![seq![cell_text(v)]],
    }
}

/// The intermediate text of a value: its rows as delimited text, or, for a
/// single value that is no table, its cell text alone.
pub open spec fn delimited_of(v: DynamicValue) -> Seq<char> {
    if is_table(v) {
        delimited_text(rows_of(v))
    } else {
        cell_text(v)
    }
}

/// Every row of a record or of a list of records has as many cells as its
/// header row.
pub proof fn lemma_rows_aligned(v: DynamicValue)
    requires
        v is Record || (v is List && unified(v->List_0@).len() > 0),
    ensures
        forall|i: int|
            0 <= i < rows_of(v).len() ==> (#[trigger] rows_of(v)[i]).len() == rows_of(v)[0].len(),
{
    match v {
        DynamicValue::Record { cols, vals } => {
            let n = pair_count(cols@, vals@);
            assert(views(cols@).take(n).len() == n);
        },
        _ => {},
    }
}

fn get_field<'a>(cols: &'a Vec<String>, vals: &'a Vec<DynamicValue>, name: &String) -> (r: Option<
    &'a DynamicValue,
>)
    ensures
        match r {
            Some(x) => lookup(cols@, vals@, name@) == Some(*x),
            None => lookup(cols@, vals@, name@) is None,
        },
{
    let mut k: usize = 0;
    assert(cols@.skip(0) =~= cols@);
    assert(vals@.skip(0) =~= vals@);
    while k < cols.len() && k < vals.len()
        invariant
            k <= cols@.len(),
            k <= vals@.len(),
            lookup(cols@, vals@, name@) == lookup(cols@.skip(k as int), vals@.skip(k as int), name@),
        decreases cols@.len() - k,
    {
        assert(cols@.skip(k as int)[0] == cols@[k as int]);
        assert(vals@.skip(k as int)[0] == vals@[k as int]);
        if cols[k].eq(name) {
            return Some(&vals[k]);
        }
        assert(cols@.skip(k as int).drop_first() =~= cols@.skip(k + 1));
        assert(vals@.skip(k as int).drop_first() =~= vals@.skip(k + 1));
        k = k + 1;
    }
    None
}

fn field_cell(elem: &DynamicValue, name: &String) -> (r: Result<String, RenderError>)
    ensures
        match r {
            Ok(s) => field_supported(*elem, name@) && s@ == field_text(*elem, name@),
            Err(e) => !field_supported(*elem, name@) && field_of(*elem, name@) == Some(
                DynamicValue::Unsupported(e->UnsupportedValue_0),
            ),
        },
{
    match elem {
        DynamicValue::Record { cols, vals } => match get_field(cols, vals, name) {
            Some(x) => to_string_tagged_value(x),
            None => Ok(String::new()),
        },
        _ => Ok(String::new()),
    }
}

/// Lays a value out as rows of cell texts.
pub fn render_rows(value: &DynamicValue) -> (r: Result<Vec<Vec<String>>, RenderError>)
    ensures
        match r {
            Ok(rows) => renders(*value) && table_views(rows@) == rows_of(*value),
            Err(e) => !renders(*value) && located(*value, e->UnsupportedValue_0),
        },
{
    match value {
        DynamicValue::Record { cols, vals } => {
            let ghost n = pair_count(cols@, vals@);
            assert(renders(*value) == (forall|k: int| 0 <= k < n ==> supported(#[trigger] vals@[k])));
            assert(forall|sp: Span|
                located(*value, sp) == (exists|k: int|
                    0 <= k < n && #[trigger] vals@[k] == DynamicValue::Unsupported(sp) && forall|
                        m: int,
                    | 0 <= m < k ==> supported(#[trigger] vals@[m])));
            let mut fields: Vec<String> = Vec::new();
            let mut cells: Vec<String> = Vec::new();
            let mut i: usize = 0;
            while i < cols.len() && i < vals.len()
                invariant
                    renders(*value) == (forall|k: int| 0 <= k < n ==> supported(#[trigger] vals@[k])),
                    forall|sp: Span|
                        located(*value, sp) == (exists|k: int|
                            0 <= k < n && #[trigger] vals@[k] == DynamicValue::Unsupported(sp)
                                && forall|m: int| 0 <= m < k ==> supported(#[trigger] vals@[m])),
                    n == pair_count(cols@, vals@),
                    i <= n,
                    fields@.len() == i,
                    forall|a: int| 0 <= a < i ==> (#[trigger] fields@[a])@ == cols@[a]@,
                    cells@.len() == i,
                    forall|a: int| 0 <= a < i ==> (#[trigger] cells@[a])@ == cell_text(vals@[a]),
                    forall|a: int| 0 <= a < i ==> supported(#[trigger] vals@[a]),
                decreases n - i,
            {
                fields.push(cols[i].clone());
                match to_string_tagged_value(&vals[i]) {
                    Ok(s) => cells.push(s),
                    Err(e) => {
                        assert(!supported(vals@[i as int]));
                        return Err(e);
                    },
                }
                i = i + 1;
            }
            let ghost cell_views = Seq::new(n as nat, |a: int| cell_text(vals@[a]));
            assert(views(cells@) =~= cell_views);
            assert(views(fields@) =~= views(cols@).take(n));
            let mut rows: Vec<Vec<String>> = Vec::new();
            rows.push(fields);
            rows.push(cells);
            assert(table_views(rows@) =~= rows_of(*value));
            Ok(rows)
        },
        DynamicValue::List(vs) => {
            let schema = merge_descriptors(vs);
            let ghost s = unified(vs@);
            if schema.len() == 0 {
                let mut cells: Vec<String> = Vec::new();
                let mut i: usize = 0;
                while i < vs.len()
                    invariant
                        *value == DynamicValue::List(*vs),
                        s == unified(vs@),
                        s.len() == 0,
                        i <= vs@.len(),
                        cells@.len() == i,
                        forall|a: int| 0 <= a < i ==> (#[trigger] cells@[a])@ == cell_text(vs@[a]),
                        forall|a: int| 0 <= a < i ==> supported(#[trigger] vs@[a]),
                    decreases vs@.len() - i,
                {
                    match to_string_tagged_value(&vs[i]) {
                        Ok(c) => cells.push(c),
                        Err(e) => {
                            assert(!supported(vs@[i as int]));
                            return Err(e);
                        },
                    }
                    i = i + 1;
                }
                assert(views(cells@) =~= Seq::new(vs@.len(), |a: int| cell_text(vs@[a])));
                let mut rows: Vec<Vec<String>> = Vec::new();
                rows.push(cells);
                assert(table_views(rows@) =~= rows_of(*value));
                Ok(rows)
            } else {
                let mut data: Vec<Vec<String>> = Vec::new();
                let mut i: usize = 0;
                while i < vs.len()
                    invariant
                        *value == DynamicValue::List(*vs),
                        s == unified(vs@),
                        i <= vs@.len(),
                        views(schema@) == s,
                        s.len() > 0,
                        data@.len() == i,
                        forall|a: int|
                            0 <= a < i ==> views((#[trigger] data@[a])@) == Seq::new(
                                s.len(),
                                |j: int| field_text(vs@[a], s[j]),
                            ),
                        forall|a: int, j: int|
                            0 <= a < i && 0 <= j < s.len() ==> field_supported(
                                #[trigger] vs@[a],
                                #[trigger] s[j],
                            ),
                    decreases vs@.len() - i,
                {
                    let mut row: Vec<String> = Vec::new();
                    let mut j: usize = 0;
                    while j < schema.len()
                        invariant
                            *value == DynamicValue::List(*vs),
                            s == unified(vs@),
                            i < vs@.len(),
                            j <= schema@.len(),
                            views(schema@) == s,
                            row@.len() == j,
                            forall|b: int|
                                0 <= b < j ==> (#[trigger] row@[b])@ == field_text(vs@[i as int], s[b]),
                            forall|b: int| 0 <= b < j ==> field_supported(vs@[i as int], #[trigger] s[b]),
                            forall|a: int, c: int|
                                0 <= a < i && 0 <= c < s.len() ==> field_supported(
                                    #[trigger] vs@[a],
                                    #[trigger] s[c],
                                ),
                        decreases schema@.len() - j,
                    {
                        assert(s[j as int] == schema@[j as int]@);
                        match field_cell(&vs[i], &schema[j]) {
                            Ok(c) => row.push(c),
                            Err(e) => {
                                assert(!field_supported(vs@[i as int], s[j as int]));
                                assert(located(*value, e->UnsupportedValue_0));
                                return Err(e);
                            },
                        }
                        j = j + 1;
                    }
                    assert(views(row@) =~= Seq::new(s.len(), |b: int| field_text(vs@[i as int], s[b])));
                    data.push(row);
                    i = i + 1;
                }
                let ghost sch = schema;
                let ghost d0 = data@;
                let mut rows: Vec<Vec<String>> = Vec::new();
                rows.push(schema);
                rows.append(&mut data);
                assert(rows@ =~= seq![sch] + d0);
                assert(table_views(rows@) =~= rows_of(*value)) by {
                    assert(table_views(rows@)[0] == s);
                    assert forall|a: int| 0 <= a < vs@.len() implies table_views(rows@)[a + 1]
                        == #[trigger] rows_of(*value)[a + 1] by {
                        assert(rows@[a + 1] == d0[a]);
                    }
                }
                Ok(rows)
            }
        },
        _ => {
            let c = to_string_tagged_value(value)?;
            let mut row: Vec<String> = Vec::new();
            row.push(c);
            assert(views(row@) =~= seq![cell_text(*value)]);
            let mut rows: Vec<Vec<String>> = Vec::new();
            rows.push(row);
            assert(rows_of(*value) == seq![seq![cell_text(*value)]]);
            assert(table_views(rows@) =~= rows_of(*value));
            Ok(rows)
        },
    }
}

/// Renders a value as intermediate text: a record or a list as delimited rows,
/// any other value as the text of its single cell.
///
/// A list without records gives one row and no header row; a reader that
/// takes the first row as the header reads those cells as column names.
pub fn from_value_to_delimited_string(value: &DynamicValue) -> (r: Result<String, RenderError>)
    ensures
        match r {
            Ok(s) => renders(*value) && s@ == delimited_of(*value),
            Err(e) => !renders(*value) && located(*value, e->UnsupportedValue_0),
        },
        renders(*value) ==> r is Ok,
{
    match value {
        DynamicValue::Record { .. } | DynamicValue::List(_) => {
            let rows = render_rows(value)?;
            to_delimited_text(&rows)
        },
        _ => to_string_tagged_value(value),
    }
}

} // verus!
