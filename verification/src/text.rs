//! Values that can be bound to a statement, and the text helpers that every
//! statement renderer shares.

use vstd::prelude::*;
use vstd::string::*;

verus! {

/// The mathematical value bound to a placeholder.
pub enum Value {
    Integer(int),
    Text(Seq<char>),
    Boolean(bool),
}

/// A value bound to a placeholder of a statement.
#[derive(Debug)]
pub enum SqlValue {
    Integer(i32),
    Text(String),
    Boolean(bool),
}

impl View for SqlValue {
    type V = Value;

    open spec fn view(&self) -> Value {
        match *self {
            SqlValue::Integer(i) => Value::Integer(i as int),
            SqlValue::Text(s) => Value::Text(s@),
            SqlValue::Boolean(b) => Value::Boolean(b),
        }
    }
}

impl SqlValue {
    /// A text value holding a copy of `s`.
    pub fn text(s: &str) -> (res: SqlValue)
        ensures
            res@ == Value::Text(s@),
    {
        SqlValue::Text(String::from_str(s))
    }

    /// A copy of this value.
    pub fn duplicate(&self) -> (res: SqlValue)
        ensures
            res@ == self@,
    {
        match self {
            SqlValue::Integer(i) => SqlValue::Integer(*i),
            SqlValue::Text(s) => SqlValue::Text(s.clone()),
            SqlValue::Boolean(b) => SqlValue::Boolean(*b),
        }
    }

    /// The text under which this value is listed after the statement.
    pub fn bind_text(&self) -> (res: String)
        ensures
            res@ == value_text(self@),
    {
        match self {
            SqlValue::Integer(i) => format_integer(*i as i64),
            SqlValue::Text(s) => format_text(s.as_str()),
            SqlValue::Boolean(b) => {
                if *b {
                    String::from_str("true")
                } else {
                    String::from_str("false")
                }
            },
        }
    }
}

/// The view of an optional value.
pub open spec fn slot_view(slot: Option<SqlValue>) -> Option<Value> {
    match slot {
        Some(v) => Some(v@),
        None => None,
    }
}

/// A copy of an optional value.
pub fn duplicate_slot(slot: &Option<SqlValue>) -> (res: Option<SqlValue>)
    ensures
        slot_view(res) == slot_view(*slot),
{
    match slot {
        Some(v) => Some(v.duplicate()),
        None => None,
    }
}

/// The character that stands for one decimal digit.
pub open spec fn digit_char(d: int) -> char {
    if d == 0 {
        '0'
    } else if d == 1 {
        '1'
    } else if d == 2 {
        '2'
    } else if d == 3 {
        '3'
    } else if d == 4 {
        '4'
    } else if d == 5 {
        '5'
    } else if d == 6 {
        '6'
    } else if d == 7 {
        '7'
    } else if d == 8 {
        '8'
    } else {
        '9'
    }
}

/// The decimal digits of a natural number, most significant first.
pub open spec fn nat_decimal(n: nat) -> Seq<char>
    decreases n,
{
    if n < 10 {
        seq![digit_char(n as int)]
    } else {
        nat_decimal(n / 10).push(digit_char((n % 10) as int))
    }
}

/// The decimal text of an integer, with a leading minus sign when negative.
pub open spec fn int_decimal(i: int) -> Seq<char> {
    if i < 0 {
        seq!['-'] + nat_decimal((-i) as nat)
    } else {
        nat_decimal(i as nat)
    }
}

/// The text that the standard debug formatting gives for a string: the
/// string between double quotes, with the characters that need it escaped.
pub uninterp spec fn escaped_text(s: Seq<char>) -> Seq<char>;

/// The text under which a value is listed among the binds.
pub open spec fn value_text(v: Value) -> Seq<char> {
    match v {
        Value::Integer(i) => int_decimal(i),
        Value::Text(s) => escaped_text(s),
        Value::Boolean(b) => if b {
            "true"@
        } else {
            "false"@
        },
    }
}

/// Calls the standard debug formatting of `i64`. Trusted: the result is the
/// decimal text of `i`, with a minus sign in front of a negative number.
#[verifier::external_body]
fn format_integer(i: i64) -> (res: String)
    ensures
        res@ == int_decimal(i as int),
{
    format!("{:?}", i)
}

/// Calls the standard debug formatting of `str`. Trusted: the result depends
/// on the characters of `s` alone, and is named `escaped_text`.
#[verifier::external_body]
fn format_text(s: &str) -> (res: String)
    ensures
        res@ == escaped_text(s@),
{
    format!("{:?}", s)
}

/// The first `n` of `parts`, with `sep` between each two neighbours.
pub open spec fn join_upto(parts: Seq<Seq<char>>, sep: Seq<char>, n: nat) -> Seq<char>
    decreases n,
{
    if n == 0 {
        Seq::empty()
    } else if n == 1 {
        parts[0]
    } else {
        join_upto(parts, sep, (n - 1) as nat) + sep + parts[n - 1]
    }
}

/// All of `parts`, with `sep` between each two neighbours.
pub open spec fn joined_by(parts: Seq<Seq<char>>, sep: Seq<char>) -> Seq<char> {
    join_upto(parts, sep, parts.len())
}

/// All of `parts`, with `", "` between each two neighbours.
pub open spec fn joined(parts: Seq<Seq<char>>) -> Seq<char> {
    joined_by(parts, ", "@)
}

/// The views of a sequence of strings.
pub open spec fn texts(parts: Seq<String>) -> Seq<Seq<char>> {
    Seq::new(parts.len(), |i: int| parts[i]@)
}

/// The text with every backtick written twice.
pub open spec fn doubled_backticks(s: Seq<char>) -> Seq<char>
    decreases s.len(),
{
    if s.len() == 0 {
        s
    } else if s.last() == '`' {
        doubled_backticks(s.drop_last()).push('`').push('`')
    } else {
        doubled_backticks(s.drop_last()).push(s.last())
    }
}

/// An identifier between backticks, with the backticks that it holds
/// written twice.
pub open spec fn quoted(name: Seq<char>) -> Seq<char> {
    "`"@ + doubled_backticks(name) + "`"@
}

/// Calls `str::replace` to write each backtick twice. Trusted: the result
/// is the text with every backtick doubled and every other character kept,
/// in order.
#[verifier::external_body]
fn escape_identifier(name: &str) -> (res: String)
    ensures
        res@ == doubled_backticks(name@),
{
    name.replace("`", "``")
}

/// Renders `parts` with `sep` between each two neighbours.
pub fn join_by(parts: &Vec<String>, sep: &str) -> (res: String)
    ensures
        res@ == joined_by(texts(parts@), sep@),
{
    let mut out = String::new();
    let mut i: usize = 0;
    while i < parts.len()
        invariant
            i <= parts.len(),
            out@ == join_upto(texts(parts@), sep@, i as nat),
        decreases parts.len() - i,
    {
        if i > 0 {
            out.append(sep);
        }
        out.append(parts[i].as_str());
        proof {
            assert(Seq::<char>::empty() + parts[i as int]@ =~= parts[i as int]@);
        }
        i += 1;
    }
    out
}

/// Renders `parts` separated by `", "`.
pub fn join_strings(parts: &Vec<String>) -> (res: String)
    ensures
        res@ == joined(texts(parts@)),
{
    join_by(parts, ", ")
}

/// The texts under which bound values are listed.
pub open spec fn bind_texts(values: Seq<Value>) -> Seq<Seq<char>> {
    Seq::new(values.len(), |i: int| value_text(values[i]))
}

/// The views of a list of values.
pub open spec fn values_view(values: Seq<SqlValue>) -> Seq<Value> {
    Seq::new(values.len(), |i: int| values[i]@)
}

/// The end of every rendered statement: the list of the bound values.
pub open spec fn binds_suffix(binds: Seq<Value>) -> Seq<char> {
    " -- binds: ["@ + joined(bind_texts(binds)) + "]"@
}

/// Renders the list of the bound values that ends a rendered statement.
pub fn render_bind_list(values: &Vec<SqlValue>) -> (res: String)
    ensures
        res@ == binds_suffix(values_view(values@)),
{
    let mut parts: Vec<String> = Vec::new();
    let mut i: usize = 0;
    while i < values.len()
        invariant
            i <= values.len(),
            parts@.len() == i,
            forall|k: int| 0 <= k < i ==> (#[trigger] parts@[k])@ == value_text(values@[k]@),
        decreases values.len() - i,
    {
        parts.push(values[i].bind_text());
        i += 1;
    }
    proof {
        assert(texts(parts@) =~= bind_texts(values_view(values@)));
    }
    let list = join_strings(&parts);
    let mut out = String::from_str(" -- binds: [");
    out.append(list.as_str());
    out.append("]");
    out
}

/// Renders an identifier between backticks, doubling the backticks that it
/// holds.
pub fn quote_identifier(name: &str) -> (res: String)
    ensures
        res@ == quoted(name@),
{
    let mut out = String::from_str("`");
    let escaped = escape_identifier(name);
    out.append(escaped.as_str());
    out.append("`");
    out
}

} // verus!
