//! The statement synthesizer: a parameterized single-cell `UPDATE` built from
//! a target column and a row key.
//!
//! Identifiers are always quoted into the text; values only ever travel as
//! bind parameters.
use vstd::prelude::*;
use crate::text::{decimal, push_char, push_decimal};

verus! {

/// One row-key column: its name, its value (`None` for SQL `NULL`), and the
/// type its bind parameter is cast to.
pub type KeyTuple = (String, Option<String>, String);

/// An element of a JSON array, as the array-literal encoding needs it.
#[derive(Debug, PartialEq, Eq)]
pub enum JsonItem {
    Null,
    /// A JSON string, unescaped.
    Text(String),
    /// Any other JSON value, as its JSON text.
    Other(String),
}

/// A statement and its bind values, in the order the statement uses them.
#[derive(Debug)]
pub struct UpdateStatement {
    pub sql: String,
    pub binds: Vec<Option<String>>,
}

/// Whether `c` has the Unicode `White_Space` property.
pub open spec fn white_space(c: char) -> bool {
    ('\u{9}' <= c && c <= '\u{d}') || c == ' ' || c == '\u{85}' || c == '\u{a0}' || c
        == '\u{1680}' || ('\u{2000}' <= c && c <= '\u{200a}') || c == '\u{2028}' || c
        == '\u{2029}' || c == '\u{202f}' || c == '\u{205f}' || c == '\u{3000}'
}

/// The elements of `s` when `s` is a JSON document whose top level is an array.
pub uninterp spec fn parsed_json_array(s: Seq<char>) -> Option<Seq<JsonItem>>;

/// Relies on `char::is_whitespace`: true exactly for characters with the
/// Unicode `White_Space` property.
#[verifier::external_body]
pub(crate) fn is_white_space(c: char) -> (r: bool)
    ensures
        r == white_space(c),
{
    c.is_whitespace()
}

/// Relies on `serde_json::from_str` to parse `s`, and on `Value`'s `Display`
/// for the JSON text of elements that are neither null nor strings.
#[verifier::external_body]
fn parse_json_array(s: &str) -> (r: Option<Vec<JsonItem>>)
    ensures
        r is Some <==> parsed_json_array(s@) is Some,
        r is Some ==> r->0@ == parsed_json_array(s@)->0,
{
    match serde_json::from_str::<serde_json::Value>(s) {
        Ok(serde_json::Value::Array(arr)) => Some(arr.iter().map(|e| match e {
            serde_json::Value::Null => JsonItem::Null,
            serde_json::Value::String(t) => JsonItem::Text(t.clone()),
            other => JsonItem::Other(other.to_string()),
        }).collect()),
        _ => None,
    }
}

/// The characters of an optional string.
pub open spec fn opt_view(o: Option<String>) -> Option<Seq<char>> {
    match o {
        Some(s) => Some(s@),
        None => None,
    }
}

/// `s` with each double quote doubled.
pub open spec fn escape_ident(s: Seq<char>) -> Seq<char>
    decreases s.len(),
{
    if s.len() == 0 {
        Seq::empty()
    } else {
        escape_ident(s.drop_last()) + if s.last() == '"' { seq!['"', '"'] } else { seq![s.last()] }
    }
}

/// `s` as a quoted identifier.
pub open spec fn quoted(s: Seq<char>) -> Seq<char> {
    seq!['"'] + escape_ident(s) + seq!['"']
}

/// How many key tuples carry a value.
pub open spec fn present_count(keys: Seq<KeyTuple>) -> nat
    decreases keys.len(),
{
    if keys.len() == 0 {
        0
    } else {
        present_count(keys.drop_last()) + if keys.last().1 is Some { 1nat } else { 0nat }
    }
}

/// The condition on one key column whose value, if any, is bind slot `slot`.
pub open spec fn key_condition(k: KeyTuple, slot: nat) -> Seq<char> {
    match k.1 {
        Some(_) => quoted(k.0@) + " = $"@ + decimal(slot) + "::"@ + k.2@,
        None => quoted(k.0@) + " IS NULL"@,
    }
}

/// The conjunction of the key conditions, in order; slot 1 holds the new value.
pub open spec fn where_clause(keys: Seq<KeyTuple>) -> Seq<char>
    decreases keys.len(),
{
    if keys.len() == 0 {
        Seq::empty()
    } else {
        where_clause(keys.drop_last()) + (if keys.len() > 1 { " AND "@ } else { Seq::empty() })
            + key_condition(keys.last(), present_count(keys.drop_last()) + 2)
    }
}

/// The statement text for setting `column` of `schema.table`.
pub open spec fn update_sql(
    schema: Seq<char>,
    table: Seq<char>,
    column: Seq<char>,
    cast: Option<Seq<char>>,
    keys: Seq<KeyTuple>,
) -> Seq<char> {
    "UPDATE "@ + quoted(schema) + "."@ + quoted(table) + " SET "@ + quoted(column) + " = $1"@
        + (match cast { Some(t) => "::"@ + t, None => Seq::empty() }) + " WHERE "@
        + where_clause(keys)
}

/// The values of the key tuples that carry one, in order.
pub open spec fn key_binds(keys: Seq<KeyTuple>) -> Seq<Option<Seq<char>>>
    decreases keys.len(),
{
    if keys.len() == 0 {
        Seq::empty()
    } else {
        key_binds(keys.drop_last()) + match keys.last().1 {
            Some(v) => seq![Some(v@)],
            None => Seq::empty(),
        }
    }
}

/// A cast type that names an array type: a leading `_` or a trailing `[]`.
pub open spec fn is_array_cast(t: Seq<char>) -> bool {
    (t.len() > 0 && t[0] == '_') || (t.len() >= 2 && t[t.len() - 2] == '[' && t[t.len() - 1]
        == ']')
}

/// The first character of `s` that is not white space.
pub open spec fn first_non_space(s: Seq<char>) -> Option<char>
    decreases s.len(),
{
    if s.len() == 0 {
        None
    } else if white_space(s[0]) {
        first_non_space(s.drop_first())
    } else {
        Some(s[0])
    }
}

/// `s` with each double quote and backslash preceded by a backslash.
pub open spec fn escape_element(s: Seq<char>) -> Seq<char>
    decreases s.len(),
{
    if s.len() == 0 {
        Seq::empty()
    } else {
        escape_element(s.drop_last()) + if s.last() == '"' || s.last() == '\\' {
            seq!['\\', s.last()]
        } else {
            seq![s.last()]
        }
    }
}

/// One element in array-literal syntax.
pub open spec fn element_literal(i: JsonItem) -> Seq<char> {
    match i {
        JsonItem::Null => "NULL"@,
        JsonItem::Text(t) => seq!['"'] + escape_element(t@) + seq!['"'],
        JsonItem::Other(t) => t@,
    }
}

/// The elements in array-literal syntax, separated by commas.
pub open spec fn elements_literal(items: Seq<JsonItem>) -> Seq<char>
    decreases items.len(),
{
    if items.len() == 0 {
        Seq::empty()
    } else {
        elements_literal(items.drop_last()) + (if items.len() > 1 { seq![','] } else { Seq::empty() })
            + element_literal(items.last())
    }
}

/// The backend's array literal holding `items`.
pub open spec fn array_literal(items: Seq<JsonItem>) -> Seq<char> {
    seq!['{'] + elements_literal(items) + seq!['}']
}

/// The value bound for the new cell: a JSON array given for an array cast is
/// re-encoded as an array literal; anything else, including text that only
/// looks like a JSON array, is bound as given.
pub open spec fn bound_value(cast: Option<Seq<char>>, value: Option<Seq<char>>) -> Option<Seq<char>> {
    match (cast, value) {
        (Some(t), Some(v)) => if is_array_cast(t) && first_non_space(v) == Some('[') {
            match parsed_json_array(v) {
                Some(items) => Some(array_literal(items)),
                None => Some(v),
            }
        } else {
            Some(v)
        },
        _ => value,
    }
}

/// Appends `ident` as a quoted identifier.
fn push_quoted(s: &mut String, ident: &str)
    ensures
        final(s)@ == old(s)@ + quoted(ident@),
{
    let ghost start = s@;
    push_char(s, '"');
    let n = ident.unicode_len();
    let mut i: usize = 0;
    while i < n
        invariant
            n == ident@.len(),
            i <= n,
            s@ == start + seq!['"'] + escape_ident(ident@.subrange(0, i as int)),
        decreases n - i,
    {
        let c = ident.get_char(i);
        if c == '"' {
            push_char(s, '"');
        }
        push_char(s, c);
        assert(ident@.subrange(0, i + 1).drop_last() =~= ident@.subrange(0, i as int));
        assert(s@ =~= start + seq!['"'] + escape_ident(ident@.subrange(0, i + 1)));
        i = i + 1;
    }
    assert(ident@.subrange(0, n as int) =~= ident@);
    push_char(s, '"');
    assert(s@ =~= start + quoted(ident@));
}

/// Appends `t` with each double quote and backslash escaped by a backslash.
fn push_escaped_element(s: &mut String, t: &str)
    ensures
        final(s)@ == old(s)@ + escape_element(t@),
{
    let ghost start = s@;
    let n = t.unicode_len();
    let mut i: usize = 0;
    while i < n
        invariant
            n == t@.len(),
            i <= n,
            s@ == start + escape_element(t@.subrange(0, i as int)),
        decreases n - i,
    {
        let c = t.get_char(i);
        if c == '"' || c == '\\' {
            push_char(s, '\\');
        }
        push_char(s, c);
        assert(t@.subrange(0, i + 1).drop_last() =~= t@.subrange(0, i as int));
        assert(s@ =~= start + escape_element(t@.subrange(0, i + 1)));
        i = i + 1;
    }
    assert(t@.subrange(0, n as int) =~= t@);
}

/// Encodes JSON array elements as the backend's array literal: strings are
/// quoted with `"` and `\` escaped, nulls become `NULL`, other values are
/// written as their JSON text.
pub fn pg_array_literal(items: &Vec<JsonItem>) -> (r: String)
    ensures
        r@ == array_literal(items@),
{
    let mut s = String::new();
    push_char(&mut s, '{');
    let mut i: usize = 0;
    while i < items.len()
        invariant
            i <= items@.len(),
            s@ == seq!['{'] + elements_literal(items@.subrange(0, i as int)),
        decreases items@.len() - i,
    {
        let ghost before = s@;
        if i > 0 {
            push_char(&mut s, ',');
        }
        match &items[i] {
            JsonItem::Null => s.append("NULL"),
            JsonItem::Text(t) => {
                push_char(&mut s, '"');
                push_escaped_element(&mut s, t.as_str());
                push_char(&mut s, '"');
            },
            JsonItem::Other(t) => s.append(t.as_str()),
        }
        proof {
            let p = items@.subrange(0, i + 1);
            assert(p.drop_last() =~= items@.subrange(0, i as int));
            assert(p.last() == items@[i as int]);
            assert(s@ =~= seq!['{'] + elements_literal(p));
        }
        i = i + 1;
    }
    assert(items@.subrange(0, items@.len() as int) =~= items@);
    push_char(&mut s, '}');
    assert(s@ =~= array_literal(items@));
    s
}

/// The first character of `s` that is not white space, if any.
fn first_visible(s: &str) -> (r: Option<char>)
    ensures
        r == first_non_space(s@),
{
    let n = s.unicode_len();
    let mut i: usize = 0;
    assert(s@.subrange(0, n as int) =~= s@);
    while i < n
        invariant
            n == s@.len(),
            i <= n,
            first_non_space(s@) == first_non_space(s@.subrange(i as int, n as int)),
        decreases n - i,
    {
        let c = s.get_char(i);
        if !is_white_space(c) {
            return Some(c);
        }
        assert(s@.subrange(i as int, n as int).drop_first() =~= s@.subrange(i + 1, n as int));
        i = i + 1;
    }
    None
}

/// Whether a cast type names an array type.
pub fn is_array_type(t: &str) -> (r: bool)
    ensures
        r == is_array_cast(t@),
{
    let n = t.unicode_len();
    (n > 0 && t.get_char(0) == '_') || (n >= 2 && t.get_char(n - 2) == '[' && t.get_char(n - 1)
        == ']')
}

/// The value to bind for the new cell (see [`bound_value`]).
pub fn bind_value(cast_type: &Option<String>, new_value: Option<String>) -> (r: Option<String>)
    ensures
        opt_view(r) == bound_value(opt_view(*cast_type), opt_view(new_value)),
{
    match (cast_type, &new_value) {
        (Some(t), Some(v)) => {
            if is_array_type(t.as_str()) && first_visible(v.as_str()) == Some('[') {
                if let Some(items) = parse_json_array(v.as_str()) {
                    return Some(pg_array_literal(&items));
                }
            }
            new_value
        },
        _ => new_value,
    }
}

proof fn lemma_present_count_le(keys: Seq<KeyTuple>)
    ensures
        present_count(keys) <= keys.len(),
    decreases keys.len(),
{
    if keys.len() > 0 {
        lemma_present_count_le(keys.drop_last());
    }
}

/// Builds the statement that sets `column` of `schema.table` on the rows
/// matching every key tuple: the new value is bind slot 1 (cast to
/// `cast_type` when one is given), then each key with a value takes the next
/// slot in order, and each key without one is matched with `IS NULL`.
pub fn build_update(
    schema: &str,
    table: &str,
    column: &str,
    cast_type: Option<String>,
    new_value: Option<String>,
    keys: &Vec<KeyTuple>,
) -> (r: UpdateStatement)
    ensures
        r.sql@ == update_sql(schema@, table@, column@, opt_view(cast_type), keys@),
        r.binds@.map_values(|b: Option<String>| opt_view(b)) == seq![
            bound_value(opt_view(cast_type), opt_view(new_value)),
        ] + key_binds(keys@),
{
    let mut sql = "UPDATE ".to_owned();
    push_quoted(&mut sql, schema);
    sql.append(".");
    push_quoted(&mut sql, table);
    sql.append(" SET ");
    push_quoted(&mut sql, column);
    sql.append(" = $1");
    if let Some(t) = &cast_type {
        sql.append("::");
        sql.append(t.as_str());
    }
    sql.append(" WHERE ");
    let ghost head = sql@;
    assert(head == update_sql(schema@, table@, column@, opt_view(cast_type), Seq::empty())) by {
        assert(where_clause(Seq::<KeyTuple>::empty()) =~= Seq::<char>::empty());
    }
    let mut binds: Vec<Option<String>> = Vec::new();
    binds.push(bind_value(&cast_type, new_value));
    let mut slot: u128 = 2;
    let mut i: usize = 0;
    assert(keys@.subrange(0, 0) =~= Seq::<KeyTuple>::empty());
    assert(binds@.map_values(|b: Option<String>| opt_view(b)) =~= seq![
        bound_value(opt_view(cast_type), opt_view(new_value)),
    ] + key_binds(keys@.subrange(0, 0)));
    while i < keys.len()
        invariant
            i <= keys@.len(),
            slot as nat == present_count(keys@.subrange(0, i as int)) + 2,
            sql@ == head + where_clause(keys@.subrange(0, i as int)),
            binds@.map_values(|b: Option<String>| opt_view(b)) == seq![
                bound_value(opt_view(cast_type), opt_view(new_value)),
            ] + key_binds(keys@.subrange(0, i as int)),
        decreases keys@.len() - i,
    {
        let ghost prev = keys@.subrange(0, i as int);
        let ghost next = keys@.subrange(0, i + 1);
        let ghost old_binds = binds@;
        proof {
            assert(next.drop_last() =~= prev);
            lemma_present_count_le(prev);
        }
        if i > 0 {
            sql.append(" AND ");
        }
        let key = &keys[i];
        push_quoted(&mut sql, key.0.as_str());
        match &key.1 {
            Some(v) => {
                sql.append(" = $");
                push_decimal(&mut sql, slot);
                sql.append("::");
                sql.append(key.2.as_str());
                let w = v.clone();
                binds.push(Some(w));
                proof {
                    assert(next.last().1 == Some(w));
                    assert(key_binds(next) =~= key_binds(prev).push(Some(w@)));
                    assert(binds@.map_values(|b: Option<String>| opt_view(b)) =~= old_binds.map_values(
                        |b: Option<String>| opt_view(b),
                    ).push(Some(w@)));
                }
                slot = slot + 1;
            },
            None => {
                sql.append(" IS NULL");
                assert(key_binds(next) =~= key_binds(prev));
            },
        }
        proof {
            assert(next.last() == keys@[i as int]);
            assert(sql@ =~= head + where_clause(next));
            assert(binds@.map_values(|b: Option<String>| opt_view(b)) =~= seq![
                bound_value(opt_view(cast_type), opt_view(new_value)),
            ] + key_binds(next));
        }
        i = i + 1;
    }
    assert(keys@.subrange(0, keys@.len() as int) =~= keys@);
    UpdateStatement { sql, binds }
}

/// The parts, separated by commas.
pub open spec fn comma_joined(parts: Seq<Seq<char>>) -> Seq<char>
    decreases parts.len(),
{
    if parts.len() == 0 {
        Seq::empty()
    } else {
        comma_joined(parts.drop_last()) + (if parts.len() > 1 { seq![','] } else { Seq::empty() })
            + parts.last()
    }
}

/// The text of a number or null element: `NULL` for null, else its JSON text.
pub open spec fn scalar_text(i: JsonItem) -> Seq<char> {
    match i {
        JsonItem::Other(t) => t@,
        _ => "NULL"@,
    }
}

proof fn lemma_scalars_joined(items: Seq<JsonItem>)
    requires
        forall|k: int| 0 <= k < items.len() ==> !(items[k] is Text),
    ensures
        elements_literal(items) == comma_joined(items.map_values(|i: JsonItem| scalar_text(i))),
    decreases items.len(),
{
    if items.len() > 0 {
        lemma_scalars_joined(items.drop_last());
        assert(items.map_values(|i: JsonItem| scalar_text(i)).drop_last() =~= items.drop_last().map_values(
            |i: JsonItem| scalar_text(i),
        ));
    }
}

/// Round trip of an edited array of numbers: when a JSON array of numbers and
/// nulls is given for an array cast, the value bound is the array literal
/// holding the same elements in the same order, each number as its JSON text
/// and each null as `NULL` (`[1,2,null,3]` gives `{1,2,NULL,3}`).
pub proof fn lemma_number_array_round_trip(cast: Seq<char>, value: Seq<char>, items: Seq<JsonItem>)
    requires
        is_array_cast(cast),
        first_non_space(value) == Some('['),
        parsed_json_array(value) == Some(items),
        forall|k: int| 0 <= k < items.len() ==> !(items[k] is Text),
    ensures
        bound_value(Some(cast), Some(value)) == Some(
            seq!['{'] + comma_joined(items.map_values(|i: JsonItem| scalar_text(i))) + seq!['}'],
        ),
{
    lemma_scalars_joined(items);
}

} // verus!
