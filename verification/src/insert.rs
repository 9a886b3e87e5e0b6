//! INSERT statements: how a batch of rows becomes one statement, and how
//! that statement is rendered.

use vstd::prelude::*;
use vstd::string::*;
use crate::text::{
    SqlValue, Value, binds_suffix, duplicate_slot, join_strings, joined, quote_identifier, quoted,
    render_bind_list, slot_view, texts, values_view,
};

verus! {

/// What the statement does with a row whose primary key is already taken.
#[derive(Clone, Copy, Debug, PartialEq, Eq, Structural)]
pub enum InsertKind {
    /// Fail on a taken key.
    Insert,
    /// Remove the old row and insert the new one.
    Replace,
    /// Skip the new row.
    InsertOrIgnore,
}

/// Why no statement could be built from a batch.
#[derive(Clone, Copy, Debug, PartialEq, Eq, Structural)]
pub enum BuildError {
    /// No row of the batch names a column.
    EmptyBatch,
    /// Two rows of the batch name different columns.
    ColumnMismatch,
}

/// One column of a row to insert, with its value if the row gives one.
#[derive(Debug)]
pub struct Field {
    pub column: String,
    pub value: Option<SqlValue>,
}

impl Field {
    /// The column set to a text value.
    pub fn text(column: &str, value: &str) -> (res: Field)
        ensures
            res.column@ == column@,
            slot_view(res.value) == Some(Value::Text(value@)),
    {
        Field { column: String::from_str(column), value: Some(SqlValue::text(value)) }
    }

    /// The column set to an integer.
    pub fn integer(column: &str, value: i32) -> (res: Field)
        ensures
            res.column@ == column@,
            slot_view(res.value) == Some(Value::Integer(value as int)),
    {
        Field { column: String::from_str(column), value: Some(SqlValue::Integer(value)) }
    }

    /// The column left to its default.
    pub fn absent(column: &str) -> (res: Field)
        ensures
            res.column@ == column@,
            slot_view(res.value) == None::<Value>,
    {
        Field { column: String::from_str(column), value: None }
    }

    /// The column set to a text value where one is given, else left to its
    /// default.
    pub fn optional_text(column: &str, value: Option<&str>) -> (res: Field)
        ensures
            res.column@ == column@,
            slot_view(res.value) == match value {
                Some(s) => Some(Value::Text(s@)),
                None => None,
            },
    {
        match value {
            Some(s) => Field::text(column, s),
            None => Field::absent(column),
        }
    }
}

/// The column names of a row, in order.
pub open spec fn field_columns(row: Seq<Field>) -> Seq<Seq<char>> {
    Seq::new(row.len(), |j: int| row[j].column@)
}

/// The optional values of a row, in order.
pub open spec fn field_values(row: Seq<Field>) -> Seq<Option<Value>> {
    Seq::new(row.len(), |j: int| slot_view(row[j].value))
}

/// The views of the slots of one row.
pub open spec fn slots_view(row: Seq<Option<SqlValue>>) -> Seq<Option<Value>> {
    Seq::new(row.len(), |j: int| slot_view(row[j]))
}

/// The views of the rows of a statement.
pub open spec fn rows_view(rows: Seq<Vec<Option<SqlValue>>>) -> Seq<Seq<Option<Value>>> {
    Seq::new(rows.len(), |i: int| slots_view(rows[i]@))
}

/// The keyword that opens a statement of the given kind.
pub open spec fn keyword(kind: InsertKind) -> Seq<char> {
    match kind {
        InsertKind::Insert => "INSERT"@,
        InsertKind::Replace => "REPLACE"@,
        InsertKind::InsertOrIgnore => "INSERT IGNORE"@,
    }
}

/// What one slot of a row contributes to the statement: a placeholder for a
/// value, `DEFAULT` for none.
pub open spec fn slot_text(slot: Option<Value>) -> Seq<char> {
    if slot is Some {
        "?"@
    } else {
        "DEFAULT"@
    }
}

/// The slots of one row, as they are joined between the row's brackets.
pub open spec fn slot_texts(row: Seq<Option<Value>>) -> Seq<Seq<char>> {
    Seq::new(row.len(), |j: int| slot_text(row[j]))
}

/// One row of the VALUES list.
pub open spec fn row_text(row: Seq<Option<Value>>) -> Seq<char> {
    "("@ + joined(slot_texts(row)) + ")"@
}

/// The rows of the VALUES list.
pub open spec fn row_texts(rows: Seq<Seq<Option<Value>>>) -> Seq<Seq<char>> {
    Seq::new(rows.len(), |i: int| row_text(rows[i]))
}

/// The quoted names of a column list.
pub open spec fn quoted_all(names: Seq<Seq<char>>) -> Seq<Seq<char>> {
    Seq::new(names.len(), |i: int| quoted(names[i]))
}

/// The values that the first `n` slots of a row bind, in order.
pub open spec fn slot_binds(row: Seq<Option<Value>>, n: nat) -> Seq<Value>
    decreases n,
{
    if n == 0 {
        Seq::empty()
    } else {
        let before = slot_binds(row, (n - 1) as nat);
        match row[n - 1] {
            Some(v) => before.push(v),
            None => before,
        }
    }
}

/// The values that the first `n` rows bind, row by row.
pub open spec fn rows_binds(rows: Seq<Seq<Option<Value>>>, n: nat) -> Seq<Value>
    decreases n,
{
    if n == 0 {
        Seq::empty()
    } else {
        rows_binds(rows, (n - 1) as nat) + slot_binds(rows[n - 1], rows[n - 1].len())
    }
}

/// The mathematical content of an INSERT statement.
pub struct InsertModel {
    pub kind: InsertKind,
    pub table: Seq<char>,
    pub columns: Seq<Seq<char>>,
    pub rows: Seq<Seq<Option<Value>>>,
}

impl InsertModel {
    /// Every row has one slot for each column.
    pub open spec fn well_formed(self) -> bool {
        forall|i: int| 0 <= i < self.rows.len() ==> (#[trigger] self.rows[i]).len() == self.columns.len()
    }

    /// The values bound by the statement, in the order of their placeholders.
    pub open spec fn binds(self) -> Seq<Value> {
        rows_binds(self.rows, self.rows.len())
    }

    /// The statement as it is sent: the keyword, the quoted table, the
    /// quoted columns, and one bracketed row per row, with `?` for a value
    /// and `DEFAULT` for none.
    pub open spec fn statement(self) -> Seq<char> {
        keyword(self.kind) + " INTO "@ + quoted(self.table) + " ("@ + joined(
            quoted_all(self.columns),
        ) + ") VALUES "@ + joined(row_texts(self.rows))
    }

    /// The statement as it is shown: the statement as it is sent, followed
    /// by the list of the bound values.
    pub open spec fn sql(self) -> Seq<char> {
        self.statement() + binds_suffix(self.binds())
    }
}

/// An INSERT statement: a table, the columns it sets, and for each row one
/// optional value per column.
#[derive(Debug)]
pub struct InsertStatement {
    pub kind: InsertKind,
    pub table: String,
    pub columns: Vec<String>,
    pub rows: Vec<Vec<Option<SqlValue>>>,
}

impl View for InsertStatement {
    type V = InsertModel;

    open spec fn view(&self) -> InsertModel {
        InsertModel {
            kind: self.kind,
            table: self.table@,
            columns: texts(self.columns@),
            rows: rows_view(self.rows@),
        }
    }
}

/// The index of the first row at or after `from` that names a column, or the
/// number of rows if there is none.
pub open spec fn first_filled(rows: Seq<Vec<Field>>, from: int) -> int
    decreases rows.len() - from,
{
    if from < 0 || from >= rows.len() {
        rows.len() as int
    } else if rows[from]@.len() > 0 {
        from
    } else {
        first_filled(rows, from + 1)
    }
}

/// A row of the given width that leaves every column to its default.
pub open spec fn default_row(width: nat) -> Seq<Option<Value>> {
    Seq::new(width, |j: int| None::<Value>)
}

/// Some row names columns other than `columns`.
pub open spec fn has_mismatch(rows: Seq<Vec<Field>>, columns: Seq<Seq<char>>) -> bool {
    exists|i: int|
        0 <= i < rows.len() && rows[i]@.len() > 0 && #[trigger] field_columns(rows[i]@) != columns
}

/// The statement that a batch stands for. The columns are those of the first
/// row that names any; a row that names none leaves every column to its
/// default; a batch in which no row names a column, or in which two rows
/// name different columns, stands for no statement.
pub open spec fn batch_model(kind: InsertKind, table: Seq<char>, rows: Seq<Vec<Field>>) -> Result<
    InsertModel,
    BuildError,
> {
    let k = first_filled(rows, 0);
    if k >= rows.len() {
        Err(BuildError::EmptyBatch)
    } else {
        let columns = field_columns(rows[k]@);
        if has_mismatch(rows, columns) {
            Err(BuildError::ColumnMismatch)
        } else {
            Ok(
                InsertModel {
                    kind,
                    table,
                    columns,
                    rows: Seq::new(
                        rows.len(),
                        |i: int|
                            if rows[i]@.len() == 0 {
                                default_row(columns.len())
                            } else {
                                field_values(rows[i]@)
                            },
                    ),
                },
            )
        }
    }
}

fn keyword_text(kind: InsertKind) -> (res: String)
    ensures
        res@ == keyword(kind),
{
    match kind {
        InsertKind::Insert => String::from_str("INSERT"),
        InsertKind::Replace => String::from_str("REPLACE"),
        InsertKind::InsertOrIgnore => String::from_str("INSERT IGNORE"),
    }
}

/// Renders a list of identifiers, each between backticks.
pub fn render_columns(columns: &Vec<String>) -> (res: String)
    ensures
        res@ == joined(quoted_all(texts(columns@))),
{
    let mut parts: Vec<String> = Vec::new();
    let mut i: usize = 0;
    while i < columns.len()
        invariant
            i <= columns.len(),
            parts@.len() == i,
            forall|k: int| 0 <= k < i ==> (#[trigger] parts@[k])@ == quoted(columns@[k]@),
        decreases columns.len() - i,
    {
        parts.push(quote_identifier(columns[i].as_str()));
        i += 1;
    }
    proof {
        assert(texts(parts@) =~= quoted_all(texts(columns@)));
    }
    join_strings(&parts)
}

fn render_row(row: &Vec<Option<SqlValue>>) -> (res: String)
    ensures
        res@ == row_text(slots_view(row@)),
{
    let mut parts: Vec<String> = Vec::new();
    let mut j: usize = 0;
    while j < row.len()
        invariant
            j <= row.len(),
            parts@.len() == j,
            forall|k: int| 0 <= k < j ==> (#[trigger] parts@[k])@ == slot_text(slot_view(row@[k])),
        decreases row.len() - j,
    {
        if row[j].is_some() {
            parts.push(String::from_str("?"));
        } else {
            parts.push(String::from_str("DEFAULT"));
        }
        j += 1;
    }
    proof {
        assert(texts(parts@) =~= slot_texts(slots_view(row@)));
    }
    let list = join_strings(&parts);
    let mut out = String::from_str("(");
    out.append(list.as_str());
    out.append(")");
    out
}

fn render_rows(rows: &Vec<Vec<Option<SqlValue>>>) -> (res: String)
    ensures
        res@ == joined(row_texts(rows_view(rows@))),
{
    let mut parts: Vec<String> = Vec::new();
    let mut i: usize = 0;
    while i < rows.len()
        invariant
            i <= rows.len(),
            parts@.len() == i,
            forall|k: int| 0 <= k < i ==> (#[trigger] parts@[k])@ == row_text(slots_view(rows@[k]@)),
        decreases rows.len() - i,
    {
        parts.push(render_row(&rows[i]));
        i += 1;
    }
    proof {
        assert(texts(parts@) =~= row_texts(rows_view(rows@)));
    }
    join_strings(&parts)
}

fn collect_binds(rows: &Vec<Vec<Option<SqlValue>>>) -> (res: Vec<SqlValue>)
    ensures
        values_view(res@) == rows_binds(rows_view(rows@), rows@.len()),
{
    let ghost model = rows_view(rows@);
    let mut out: Vec<SqlValue> = Vec::new();
    let mut i: usize = 0;
    while i < rows.len()
        invariant
            i <= rows.len(),
            model == rows_view(rows@),
            values_view(out@) =~= rows_binds(model, i as nat),
        decreases rows.len() - i,
    {
        let row = &rows[i];
        let ghost before = rows_binds(model, i as nat);
        let mut j: usize = 0;
        while j < row.len()
            invariant
                j <= row.len(),
                i < rows.len(),
                row@ == rows@[i as int]@,
                model == rows_view(rows@),
                before == rows_binds(model, i as nat),
                values_view(out@) =~= before + slot_binds(model[i as int], j as nat),
            decreases row.len() - j,
        {
            let ghost done = slot_binds(model[i as int], j as nat);
            let ghost earlier = out@;
            match &row[j] {
                Some(v) => {
                    let copy = v.duplicate();
                    out.push(copy);
                    proof {
                        assert(model[i as int][j as int] == Some(v@));
                        assert(slot_binds(model[i as int], (j + 1) as nat) == done.push(v@));
                        assert(before + done.push(v@) =~= (before + done).push(v@));
                        assert(values_view(out@) =~= values_view(earlier).push(copy@));
                    }
                },
                None => {
                    proof {
                        assert(model[i as int][j as int] == None::<Value>);
                        assert(slot_binds(model[i as int], (j + 1) as nat) == done);
                    }
                },
            }
            j += 1;
        }
        proof {
            assert(model[i as int].len() == row@.len());
            assert(rows_binds(model, (i + 1) as nat) == before + slot_binds(
                model[i as int],
                model[i as int].len(),
            ));
        }
        i += 1;
    }
    out
}

fn same_columns(row: &Vec<Field>, columns: &Vec<String>) -> (res: bool)
    ensures
        res == (field_columns(row@) == texts(columns@)),
{
    if row.len() != columns.len() {
        proof {
            assert(field_columns(row@).len() != texts(columns@).len());
        }
        return false;
    }
    let mut j: usize = 0;
    while j < row.len()
        invariant
            j <= row.len(),
            row.len() == columns.len(),
            forall|m: int| 0 <= m < j ==> (#[trigger] row@[m]).column@ == columns@[m]@,
        decreases row.len() - j,
    {
        if row[j].column != columns[j] {
            proof {
                assert(field_columns(row@)[j as int] != texts(columns@)[j as int]);
            }
            return false;
        }
        j += 1;
    }
    proof {
        assert(field_columns(row@) =~= texts(columns@));
    }
    true
}

fn default_slots(width: usize) -> (res: Vec<Option<SqlValue>>)
    ensures
        slots_view(res@) == default_row(width as nat),
{
    let mut out: Vec<Option<SqlValue>> = Vec::new();
    let mut j: usize = 0;
    while j < width
        invariant
            j <= width,
            out@.len() == j,
            forall|m: int| 0 <= m < j ==> (#[trigger] out@[m]) is None,
        decreases width - j,
    {
        out.push(None);
        j += 1;
    }
    proof {
        assert(slots_view(out@) =~= default_row(width as nat));
    }
    out
}

fn copy_values(row: &Vec<Field>) -> (res: Vec<Option<SqlValue>>)
    ensures
        slots_view(res@) == field_values(row@),
{
    let mut out: Vec<Option<SqlValue>> = Vec::new();
    let mut j: usize = 0;
    while j < row.len()
        invariant
            j <= row.len(),
            out@.len() == j,
            forall|m: int| 0 <= m < j ==> slot_view(#[trigger] out@[m]) == slot_view(row@[m].value),
        decreases row.len() - j,
    {
        out.push(duplicate_slot(&row[j].value));
        j += 1;
    }
    proof {
        assert(slots_view(out@) =~= field_values(row@));
    }
    out
}

fn copy_columns(row: &Vec<Field>) -> (res: Vec<String>)
    ensures
        texts(res@) == field_columns(row@),
{
    let mut out: Vec<String> = Vec::new();
    let mut j: usize = 0;
    while j < row.len()
        invariant
            j <= row.len(),
            out@.len() == j,
            forall|m: int| 0 <= m < j ==> (#[trigger] out@[m])@ == row@[m].column@,
        decreases row.len() - j,
    {
        out.push(row[j].column.clone());
        j += 1;
    }
    proof {
        assert(texts(out@) =~= field_columns(row@));
    }
    out
}

/// Builds one statement from a batch of rows. The columns are those of the
/// first row that names any, and a row that names none leaves each of them to
/// its default. Fails with `EmptyBatch` when no row names a column, and with
/// `ColumnMismatch` when some row names other columns than the first.
pub fn insert_batch(kind: InsertKind, table: &str, rows: &Vec<Vec<Field>>) -> (res: Result<
    InsertStatement,
    BuildError,
>)
    ensures
        match res {
            Ok(stmt) => batch_model(kind, table@, rows@) == Ok::<InsertModel, BuildError>(stmt@)
                && stmt@.well_formed(),
            Err(e) => batch_model(kind, table@, rows@) == Err::<InsertModel, BuildError>(e),
        },
{
    let mut k: usize = 0;
    while k < rows.len() && rows[k].len() == 0
        invariant
            k <= rows.len(),
            first_filled(rows@, 0) == first_filled(rows@, k as int),
        decreases rows.len() - k,
    {
        k += 1;
    }
    if k == rows.len() {
        return Err(BuildError::EmptyBatch);
    }
    let columns = copy_columns(&rows[k]);
    let ghost names = field_columns(rows@[k as int]@);
    proof {
        assert(first_filled(rows@, k as int) == k);
    }
    let mut out: Vec<Vec<Option<SqlValue>>> = Vec::new();
    let mut i: usize = 0;
    while i < rows.len()
        invariant
            i <= rows.len(),
            out@.len() == i,
            names == texts(columns@),
            k < rows.len(),
            first_filled(rows@, 0) == k,
            names == field_columns(rows@[k as int]@),
            forall|m: int|
                0 <= m < i && rows@[m]@.len() > 0 ==> #[trigger] field_columns(rows@[m]@) == names,
            forall|m: int|
                0 <= m < i ==> slots_view((#[trigger] out@[m])@) == (if rows@[m]@.len() == 0 {
                    default_row(names.len())
                } else {
                    field_values(rows@[m]@)
                }),
        decreases rows.len() - i,
    {
        let row = &rows[i];
        if row.len() == 0 {
            out.push(default_slots(columns.len()));
        } else if !same_columns(row, &columns) {
            proof {
                assert(field_columns(rows@[i as int]@) != names);
                assert(has_mismatch(rows@, names));
            }
            return Err(BuildError::ColumnMismatch);
        } else {
            out.push(copy_values(row));
        }
        i += 1;
    }
    let stmt = InsertStatement { kind, table: String::from_str(table), columns, rows: out };
    proof {
        let expected = batch_model(kind, table@, rows@);
        assert(!has_mismatch(rows@, names));
        assert(expected is Ok);
        assert(stmt@.rows =~= expected->Ok_0.rows);
        assert(stmt@.well_formed()) by {
            assert forall|m: int| 0 <= m < stmt@.rows.len() implies (#[trigger] stmt@.rows[m]).len()
                == stmt@.columns.len() by {
                if rows@[m]@.len() > 0 {
                    assert(field_columns(rows@[m]@) == names);
                    assert(field_columns(rows@[m]@).len() == rows@[m]@.len());
                }
            }
        }
    }
    Ok(stmt)
}

/// Builds the statement that inserts one row.
pub fn insert_row(kind: InsertKind, table: &str, row: Vec<Field>) -> (res: Result<
    InsertStatement,
    BuildError,
>)
    ensures
        match res {
            Ok(stmt) => batch_model(kind, table@, seq![row]) == Ok::<InsertModel, BuildError>(
                stmt@,
            ) && stmt@.well_formed(),
            Err(e) => batch_model(kind, table@, seq![row]) == Err::<InsertModel, BuildError>(e),
        },
{
    let mut rows: Vec<Vec<Field>> = Vec::new();
    rows.push(row);
    proof {
        assert(rows@ =~= seq![row]);
    }
    insert_batch(kind, table, &rows)
}

/// A batch in which no row names a column stands for no statement.
pub proof fn empty_batch_is_refused(kind: InsertKind, table: Seq<char>, rows: Seq<Vec<Field>>)
    requires
        forall|i: int| 0 <= i < rows.len() ==> (#[trigger] rows[i])@.len() == 0,
    ensures
        batch_model(kind, table, rows) == Err::<InsertModel, BuildError>(BuildError::EmptyBatch),
{
    lemma_first_filled_none(rows, 0);
}

proof fn lemma_first_filled_none(rows: Seq<Vec<Field>>, from: int)
    requires
        0 <= from <= rows.len(),
        forall|i: int| from <= i < rows.len() ==> (#[trigger] rows[i])@.len() == 0,
    ensures
        first_filled(rows, from) == rows.len(),
    decreases rows.len() - from,
{
    if from < rows.len() {
        lemma_first_filled_none(rows, from + 1);
    }
}

/// In a batch whose rows all name the same columns, at least one of them,
/// the statement lists exactly those columns in their order, keeps one row
/// per row of the batch, and renders each slot of a row as a placeholder or
/// as `DEFAULT`, one slot per column.
pub proof fn uniform_batch_keeps_columns(
    kind: InsertKind,
    table: Seq<char>,
    rows: Seq<Vec<Field>>,
    columns: Seq<Seq<char>>,
)
    requires
        rows.len() > 0,
        columns.len() > 0,
        forall|i: int| 0 <= i < rows.len() ==> #[trigger] field_columns(rows[i]@) == columns,
    ensures
        batch_model(kind, table, rows) is Ok,
        batch_model(kind, table, rows)->Ok_0.columns == columns,
        batch_model(kind, table, rows)->Ok_0.rows.len() == rows.len(),
        forall|i: int|
            0 <= i < rows.len() ==> (#[trigger] batch_model(kind, table, rows)->Ok_0.rows[i])
                == field_values(rows[i]@),
        forall|i: int, j: int|
            0 <= i < rows.len() && 0 <= j < columns.len() ==> {
                &&& slot_texts(batch_model(kind, table, rows)->Ok_0.rows[i]).len() == columns.len()
                &&& (#[trigger] slot_texts(batch_model(kind, table, rows)->Ok_0.rows[i])[j] == "?"@
                    || slot_texts(batch_model(kind, table, rows)->Ok_0.rows[i])[j] == "DEFAULT"@)
            },
{
    assert(field_columns(rows[0]@).len() == rows[0]@.len());
    assert(first_filled(rows, 0) == 0);
    assert forall|i: int| 0 <= i < rows.len() implies (#[trigger] rows[i])@.len() == columns.len() by {
        assert(field_columns(rows[i]@) == columns);
        assert(field_columns(rows[i]@).len() == rows[i]@.len());
    }
}

impl InsertStatement {
    /// The statement that inserts one row with every column left to its
    /// default.
    pub fn default_values(table: &str) -> (res: InsertStatement)
        ensures
            res@.kind == InsertKind::Insert,
            res@.table == table@,
            res@.columns == Seq::<Seq<char>>::empty(),
            res@.rows == seq![Seq::<Option<Value>>::empty()],
            res@.well_formed(),
    {
        let mut rows: Vec<Vec<Option<SqlValue>>> = Vec::new();
        rows.push(Vec::new());
        let res = InsertStatement {
            kind: InsertKind::Insert,
            table: String::from_str(table),
            columns: Vec::new(),
            rows,
        };
        proof {
            assert(res@.columns =~= Seq::<Seq<char>>::empty());
            assert(res@.rows[0] =~= Seq::<Option<Value>>::empty());
            assert(res@.rows =~= seq![Seq::<Option<Value>>::empty()]);
        }
        res
    }

    /// The values that the statement binds, in the order of their
    /// placeholders.
    pub fn bound_values(&self) -> (res: Vec<SqlValue>)
        ensures
            values_view(res@) == self@.binds(),
    {
        collect_binds(&self.rows)
    }

    /// The statement as it is shown: the statement as it is sent, followed
    /// by the list of the bound values.
    pub fn render(&self) -> (res: String)
        ensures
            res@ == self@.sql(),
    {
        let mut out = self.statement_text();
        let suffix = render_bind_list(&self.bound_values());
        out.append(suffix.as_str());
        out
    }

    /// The statement as it is sent: the keyword, the quoted table, the
    /// quoted columns, and one bracketed row per row, with `?` for a value
    /// and `DEFAULT` for none.
    pub fn statement_text(&self) -> (res: String)
        ensures
            res@ == self@.statement(),
    {
        let mut out = keyword_text(self.kind);
        out.append(" INTO ");
        let table = quote_identifier(self.table.as_str());
        out.append(table.as_str());
        out.append(" (");
        let columns = render_columns(&self.columns);
        out.append(columns.as_str());
        out.append(") VALUES ");
        let rows = render_rows(&self.rows);
        out.append(rows.as_str());
        out
    }
}

} // verus!
