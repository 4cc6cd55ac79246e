//! Structured text: parsing it into tables, with every diagnostic of a
//! failed parse in one message, and printing tables out.
use crate::strings::string_push;
use crate::table::{Table, TableModel, TomlValue, ValueModel};
use crate::text_tree::{
    from_text_members, table_to_text, text_items_model, text_members_model, text_to_table,
    to_text_members, TextModel, TextValue,
};
use crate::value::report_error;
use num_traits::FromBytes;
use toml::{Parser, Value};
use vstd::prelude::*;

verus! {

/// The value type of `toml`, carried through as it is.
#[verifier::external_type_specification]
#[verifier::external_body]
pub struct ExTomlValue(Value);

/// What `toml::Parser::parse` makes of a text: the members of the root
/// table, or the parser's errors, each with the byte offset where it
/// starts and its description.
pub uninterp spec fn text_parsed(input: Seq<char>) -> Result<
    Seq<(Seq<char>, TextModel)>,
    Seq<(usize, Seq<char>)>,
>;

/// What `toml`'s `Display` writes for a table with these members.
pub uninterp spec fn text_printed(members: Seq<(Seq<char>, TextModel)>) -> Seq<char>;

/// The line and the column, both counted from 0, that
/// `toml::Parser::to_linecol` gives for a byte offset into a text.
pub uninterp spec fn text_linecol(input: Seq<char>, offset: usize) -> (usize, usize);

/// What `str`'s `Debug` writes for a text: the text in double quotes, with
/// escapes.
pub uninterp spec fn debug_quoted(text: Seq<char>) -> Seq<char>;

/// Where the first element of `a` is a table, all its elements are.
pub open spec fn uniform_tables(a: Seq<TextModel>) -> bool {
    a.len() > 0 && a[0] is Table ==> forall|i: int| 0 <= i < a.len() ==> a[i] is Table
}

/// The printer can write `x`: every array that a table holds and that
/// starts with a table holds nothing but tables, at any depth.
pub open spec fn printable(x: TextModel) -> bool
    decreases x,
{
    match x {
        TextModel::Table(t) => printable_members(t),
        TextModel::Array(a) => printable_items(a),
        _ => true,
    }
}

/// The printer can write every element of `a`.
pub open spec fn printable_items(a: Seq<TextModel>) -> bool
    decreases a,
{
    forall|i: int| 0 <= i < a.len() ==> printable(#[trigger] a[i])
}

/// The printer can write a table with the members `t`.
pub open spec fn printable_members(t: Seq<(Seq<char>, TextModel)>) -> bool
    decreases t,
{
    forall|i: int|
        0 <= i < t.len() ==> printable((#[trigger] t[i]).1) && (t[i].1 is Array ==> uniform_tables(
            t[i].1->Array_0,
        ))
}

/// Copies a `toml::Value` into a `TextValue`, variant by variant.
#[verifier::external_body]
fn text_from_outside(v: &Value) -> TextValue {
    match v {
        Value::String(s) => TextValue::String(s.clone()),
        Value::Integer(i) => TextValue::Integer(*i),
        Value::Float(f) => TextValue::Float(f.to_bits()),
        Value::Boolean(b) => TextValue::Boolean(*b),
        Value::Datetime(d) => TextValue::Datetime(d.clone()),
        Value::Array(a) => TextValue::Array(a.iter().map(text_from_outside).collect()),
        Value::Table(t) => TextValue::Table(
            t.iter().map(|(k, x)| (k.clone(), text_from_outside(x))).collect(),
        ),
    }
}

/// Copies a `TextValue` into a `toml::Value`, variant by variant.
#[verifier::external_body]
fn text_to_outside(v: &TextValue) -> Value {
    match v {
        TextValue::String(s) => Value::String(s.clone()),
        TextValue::Integer(i) => Value::Integer(*i),
        TextValue::Float(bits) => Value::Float(FromBytes::from_le_bytes(&bits.to_le_bytes())),
        TextValue::Boolean(b) => Value::Boolean(*b),
        TextValue::Datetime(d) => Value::Datetime(d.clone()),
        TextValue::Array(a) => Value::Array(a.iter().map(text_to_outside).collect()),
        TextValue::Table(t) => Value::Table(
            t.iter().map(|m| (m.0.clone(), text_to_outside(&m.1))).collect(),
        ),
    }
}

/// Parses a text with `toml::Parser::parse`. The result is what
/// `text_parsed` names for this text: the root table's members, or the
/// parser's errors in the order it recorded them.
#[verifier::external_body]
fn parse_text(input: &str) -> (r: Result<Vec<(String, TextValue)>, Vec<(usize, String)>>)
    ensures
        match r {
            Ok(members) => text_parsed(input@) == Ok::<
                Seq<(Seq<char>, TextModel)>,
                Seq<(usize, Seq<char>)>,
            >(text_members_model(members)),
            Err(errors) => text_parsed(input@) == Err::<
                Seq<(Seq<char>, TextModel)>,
                Seq<(usize, Seq<char>)>,
            >(errors_model(errors)),
        },
{
    let mut parser = Parser::new(input);
    match parser.parse() {
        Some(table) => Ok(table.iter().map(|(k, x)| (k.clone(), text_from_outside(x))).collect()),
        None => Err(parser.errors.iter().map(|e| (e.lo, e.desc.clone())).collect()),
    }
}

/// Prints a table with `toml`'s `Display` for `Value::Table`, which panics
/// on an array that starts with a table and goes on with something else.
#[verifier::external_body]
fn print_text(members: &Vec<(String, TextValue)>) -> (r: String)
    requires
        printable_members(text_members_model(*members)),
    ensures
        r@ == text_printed(text_members_model(*members)),
{
    Value::Table(members.iter().map(|m| (m.0.clone(), text_to_outside(&m.1))).collect()).to_string()
}

/// The line and column of a byte offset, by `toml::Parser::to_linecol`.
#[verifier::external_body]
fn line_column(input: &str, offset: usize) -> (r: (usize, usize))
    ensures
        r == text_linecol(input@, offset),
{
    Parser::new(input).to_linecol(offset)
}

/// A text as `str`'s `Debug` writes it, by `format!`.
#[verifier::external_body]
fn debug_quote(text: &str) -> (r: String)
    ensures
        r@ == debug_quoted(text@),
{
    format!("{:?}", text)
}

/// What a list of parser errors denotes.
pub open spec fn errors_model(errors: Vec<(usize, String)>) -> Seq<(usize, Seq<char>)> {
    Seq::new(errors@.len(), |i: int| (errors@[i].0, errors@[i].1@))
}

/// The character of a decimal digit.
pub open spec fn digit(d: nat) -> char {
    if d == 0 {
        '0'
    } else if d == 1 {
        '1'
    } else if d == 2 {
        '2'
    } else if d == 3 {
        '3'
    } else if d == 4 {
        '4'
    } else if d == 5 {
        '5'
    } else if d == 6 {
        '6'
    } else if d == 7 {
        '7'
    } else if d == 8 {
        '8'
    } else {
        '9'
    }
}

/// A number in decimal, without leading zeros.
pub open spec fn decimal(n: nat) -> Seq<char>
    decreases n,
{
    if n < 10 {
        seq![digit(n)]
    } else {
        decimal(n / 10).push(digit(n % 10))
    }
}

/// One diagnostic: where the error is, and what it is.
pub open spec fn diagnostic_line(position: (usize, usize), description: Seq<char>) -> Seq<char> {
    "Line "@ + decimal(position.0 as nat) + ", Col "@ + decimal(position.1 as nat) + ": "@
        + description
}

/// The first `n` of `items`, with a comma and a space between neighbours.
pub open spec fn joined(items: Seq<Seq<char>>, n: nat) -> Seq<char>
    decreases n,
{
    if n == 0 || n > items.len() {
        Seq::empty()
    } else if n == 1 {
        items[0]
    } else {
        joined(items, (n - 1) as nat) + ", "@ + items[n - 1]
    }
}

/// The diagnostics of the first `n` errors of a failed parse, each quoted.
pub open spec fn quoted_diagnostics(
    input: Seq<char>,
    errors: Seq<(usize, Seq<char>)>,
) -> Seq<Seq<char>> {
    Seq::new(
        errors.len(),
        |i: int| debug_quoted(diagnostic_line(text_linecol(input, errors[i].0), errors[i].1)),
    )
}

/// The one message for all the errors of a failed parse: the quoted
/// diagnostics in the parser's order, as a bracketed list.
pub open spec fn parse_errors_message(input: Seq<char>, errors: Seq<(usize, Seq<char>)>) -> Seq<
    char,
> {
    "Parse errors: "@ + "["@ + joined(quoted_diagnostics(input, errors), errors.len()) + "]"@
}

fn digit_char(d: usize) -> (c: char)
    requires
        d < 10,
    ensures
        c == digit(d as nat),
{
    if d == 0 {
        '0'
    } else if d == 1 {
        '1'
    } else if d == 2 {
        '2'
    } else if d == 3 {
        '3'
    } else if d == 4 {
        '4'
    } else if d == 5 {
        '5'
    } else if d == 6 {
        '6'
    } else if d == 7 {
        '7'
    } else if d == 8 {
        '8'
    } else {
        '9'
    }
}

/// Appends a number in decimal.
pub fn push_decimal(out: &mut String, n: usize)
    ensures
        final(out)@ == old(out)@ + decimal(n as nat),
    decreases n,
{
    if n < 10 {
        string_push(out, digit_char(n));
        assert(out@ =~= old(out)@ + decimal(n as nat));
    } else {
        push_decimal(out, n / 10);
        string_push(out, digit_char(n % 10));
        assert(out@ =~= old(out)@ + decimal(n as nat));
    }
}

/// Writes one diagnostic.
pub fn format_diagnostic(position: (usize, usize), description: &str) -> (line: String)
    ensures
        line@ == diagnostic_line(position, description@),
{
    let mut line = "Line ".to_owned();
    push_decimal(&mut line, position.0);
    line.append(", Col ");
    push_decimal(&mut line, position.1);
    line.append(": ");
    line.append(description);
    line
}

/// Writes the one message for the errors of a failed parse of `input`.
pub fn format_parse_errors(input: &str, errors: &Vec<(usize, String)>) -> (message: String)
    ensures
        message@ == parse_errors_message(input@, errors_model(*errors)),
{
    let ghost quoted = quoted_diagnostics(input@, errors_model(*errors));
    let mut list = String::new();
    let n = errors.len();
    let mut i: usize = 0;
    while i < n
        invariant
            n == errors@.len(),
            i <= n,
            quoted == quoted_diagnostics(input@, errors_model(*errors)),
            list@ == joined(quoted, i as nat),
        decreases n - i,
    {
        let position = line_column(input, errors[i].0);
        let line = format_diagnostic(position, errors[i].1.as_str());
        let item = debug_quote(line.as_str());
        assert(item@ == quoted[i as int]);
        if i > 0 {
            list.append(", ");
        }
        list.append(item.as_str());
        assert(list@ =~= joined(quoted, (i + 1) as nat));
        i += 1;
    }
    let mut message = "Parse errors: ".to_owned();
    message.append("[");
    message.append(list.as_str());
    message.append("]");
    message
}

/// The outcome of parsing a text: the table that its members give, or
/// the message for its errors.
pub open spec fn parse_outcome(input: Seq<char>) -> Result<TableModel, Seq<char>> {
    match text_parsed(input) {
        Ok(members) => Ok(from_text_members(members, members.len())),
        Err(errors) => Err(parse_errors_message(input, errors)),
    }
}

/// Parses structured text into its root table. On failure the result is
/// `None`, and the slot, where one is given, holds one message with every
/// diagnostic of the parser, in its order. On success the slot is left
/// alone.
pub fn ParseTable(input: &str, errors: Option<&mut Option<Box<TomlValue>>>) -> (r: Option<
    Box<Table>,
>)
    ensures
        match parse_outcome(input@) {
            Ok(t) => match r {
                Some(table) => (*table)@ == t && table.wf(),
                None => false,
            },
            Err(message) => r.is_none() && match errors {
                Some(slot) => match *final(slot) {
                    Some(value) => (*value)@ == ValueModel::String(message),
                    None => false,
                },
                None => true,
            },
        },
        r.is_some() ==> match errors {
            Some(slot) => *final(slot) == *slot,
            None => true,
        },
{
    match parse_text(input) {
        Ok(members) => Some(Box::new(text_to_table(&members))),
        Err(list) => {
            let message = format_parse_errors(input, &list);
            report_error(errors, message);
            None
        },
    }
}

fn all_tables(items: &Vec<TextValue>) -> (r: bool)
    ensures
        r == (forall|i: int|
            0 <= i < text_items_model(*items).len() ==> text_items_model(*items)[i] is Table),
{
    let n = items.len();
    let mut i: usize = 0;
    while i < n
        invariant
            n == items@.len(),
            i <= n,
            forall|j: int| 0 <= j < i ==> text_items_model(*items)[j] is Table,
        decreases n - i,
    {
        match &items[i] {
            TextValue::Table(_) => {},
            _ => {
                assert(!(text_items_model(*items)[i as int] is Table));
                return false;
            },
        }
        i += 1;
    }
    true
}

fn is_uniform(items: &Vec<TextValue>) -> (r: bool)
    ensures
        r == uniform_tables(text_items_model(*items)),
{
    if items.len() == 0 {
        return true;
    }
    match &items[0] {
        TextValue::Table(_) => all_tables(items),
        _ => {
            assert(!(text_items_model(*items)[0] is Table));
            true
        },
    }
}

/// Whether the printer can write the elements of an array.
pub fn can_print_items(items: &Vec<TextValue>) -> (r: bool)
    ensures
        r == printable_items(text_items_model(*items)),
    decreases items,
{
    let n = items.len();
    let mut i: usize = 0;
    while i < n
        invariant
            n == items@.len(),
            i <= n,
            forall|j: int| 0 <= j < i ==> printable(#[trigger] text_items_model(*items)[j]),
        decreases n - i,
    {
        if !can_print(&items[i]) {
            assert(!printable(text_items_model(*items)[i as int]));
            return false;
        }
        i += 1;
    }
    true
}

/// Whether the printer can write a table with these members.
pub fn can_print_members(members: &Vec<(String, TextValue)>) -> (r: bool)
    ensures
        r == printable_members(text_members_model(*members)),
    decreases members,
{
    let ghost t = text_members_model(*members);
    let n = members.len();
    let mut i: usize = 0;
    while i < n
        invariant
            n == members@.len(),
            i <= n,
            t == text_members_model(*members),
            forall|j: int|
                0 <= j < i ==> printable((#[trigger] t[j]).1) && (t[j].1 is Array
                    ==> uniform_tables(t[j].1->Array_0)),
        decreases n - i,
    {
        assert(t[i as int].1 == members@[i as int].1@);
        if !can_print(&members[i].1) {
            return false;
        }
        let uniform = match &members[i].1 {
            TextValue::Array(a) => is_uniform(a),
            _ => true,
        };
        if !uniform {
            return false;
        }
        i += 1;
    }
    true
}

/// Whether the printer can write a tree.
pub fn can_print(x: &TextValue) -> (r: bool)
    ensures
        r == printable(x@),
    decreases x,
{
    match x {
        TextValue::Table(t) => can_print_members(t),
        TextValue::Array(a) => can_print_items(a),
        _ => true,
    }
}

/// A table can be printed: none of its arrays, at any depth, starts with a
/// table and goes on with something else.
pub open spec fn table_printable(t: TableModel) -> bool {
    printable_members(to_text_members(t))
}

/// Prints a table as structured text, which comes back as a string value.
/// The table must be one that the printer can write.
pub fn SerializeTable(input: &Table) -> (r: Box<TomlValue>)
    requires
        table_printable(input@),
    ensures
        (*r)@ == ValueModel::String(text_printed(to_text_members(input@))),
{
    let members = table_to_text(input);
    Box::new(TomlValue::String(print_text(&members)))
}

/// Prints a table as structured text where the printer can write it, and
/// gives `None` where it cannot.
pub fn TrySerializeTable(input: &Table) -> (r: Option<Box<TomlValue>>)
    ensures
        match r {
            Some(text) => table_printable(input@) && (*text)@ == ValueModel::String(
                text_printed(to_text_members(input@)),
            ),
            None => !table_printable(input@),
        },
{
    let members = table_to_text(input);
    if can_print_members(&members) {
        Some(Box::new(TomlValue::String(print_text(&members))))
    } else {
        None
    }
}

} // verus!
