//! What an INSERT statement does to the users table.

use vstd::prelude::*;
use vstd::string::*;
use crate::insert::{InsertKind, InsertModel, InsertStatement, rows_view};
use crate::text::{SqlValue, Value, slot_view, texts};
use crate::users::{
    FormModel, KeyedUser, TableError, UserForm, UserModel, UserTable, form_row, holds_key,
    lemma_position_from, next_key, put_ignore, put_new, put_replace, stamped, stamped_all,
    text_view,
};

verus! {

/// The mathematical content of a row to write.
pub struct NewUserModel {
    pub id: Option<int>,
    pub name: Seq<char>,
    pub hair_color: Option<Seq<char>>,
}

/// A row to write: its key if the statement gives one, its name, and its
/// hair colour if the statement gives one.
#[derive(Debug)]
pub struct NewUser {
    pub id: Option<i32>,
    pub name: String,
    pub hair_color: Option<String>,
}

impl View for NewUser {
    type V = NewUserModel;

    open spec fn view(&self) -> NewUserModel {
        NewUserModel {
            id: match self.id {
                Some(i) => Some(i as int),
                None => None,
            },
            name: self.name@,
            hair_color: text_view(self.hair_color),
        }
    }
}

/// The first index at or after `from` at which `name` stands among the
/// columns, or the number of columns if it stands nowhere.
pub open spec fn column_index(columns: Seq<Seq<char>>, name: Seq<char>, from: int) -> int
    decreases columns.len() - from,
{
    if from < 0 || from >= columns.len() || columns[from] == name {
        from
    } else {
        column_index(columns, name, from + 1)
    }
}

/// What a row gives for a column: nothing where the statement does not
/// name the column or the row leaves it to its default.
pub open spec fn slot_at(columns: Seq<Seq<char>>, row: Seq<Option<Value>>, name: Seq<char>) -> Option<
    Value,
> {
    let i = column_index(columns, name, 0);
    if i < columns.len() && i < row.len() {
        row[i]
    } else {
        None
    }
}

/// The users table has this column and lets a statement set it.
pub open spec fn known_column(name: Seq<char>) -> bool {
    name == "id"@ || name == "name"@ || name == "hair_color"@
}

/// The row that the slots of a statement's row stand for. The name has no
/// default, so a row without one is refused; the key and the hair colour
/// may be left out.
pub open spec fn decoded(columns: Seq<Seq<char>>, row: Seq<Option<Value>>) -> Result<
    NewUserModel,
    TableError,
> {
    let id = slot_at(columns, row, "id"@);
    let name = slot_at(columns, row, "name"@);
    let hair = slot_at(columns, row, "hair_color"@);
    if name is None {
        Err(TableError::MissingDefault)
    } else if !(name->Some_0 is Text) {
        Err(TableError::TypeMismatch)
    } else if id is Some && !(id->Some_0 is Integer) {
        Err(TableError::TypeMismatch)
    } else if hair is Some && !(hair->Some_0 is Text) {
        Err(TableError::TypeMismatch)
    } else {
        Ok(
            NewUserModel {
                id: if id is Some {
                    Some(id->Some_0->Integer_0)
                } else {
                    None
                },
                name: name->Some_0->Text_0,
                hair_color: if hair is Some {
                    Some(hair->Some_0->Text_0)
                } else {
                    None
                },
            },
        )
    }
}

/// The table after one row was written at time `now`. A row without a key
/// gets the next free one. A row whose key is taken is refused by a plain
/// insert, replaces the old row in a replace, and is skipped by an insert
/// that ignores taken keys.
pub open spec fn write_row(s: Seq<UserModel>, row: NewUserModel, kind: InsertKind, now: int) -> Result<
    Seq<UserModel>,
    TableError,
> {
    match row.id {
        None => if next_key(s) > i32::MAX {
            Err(TableError::KeyExhausted)
        } else {
            Ok(s.push(form_row(s, FormModel { name: row.name, hair_color: row.hair_color }, now)))
        },
        Some(id) => {
            let full = UserModel {
                id,
                name: row.name,
                hair_color: row.hair_color,
                created_at: now,
                updated_at: now,
            };
            match kind {
                InsertKind::Insert => if holds_key(s, id) {
                    Err(TableError::DuplicateKey)
                } else {
                    Ok(put_new(s, full))
                },
                InsertKind::Replace => Ok(put_replace(s, full)),
                InsertKind::InsertOrIgnore => Ok(put_ignore(s, full)),
            }
        },
    }
}

/// The table after the first `n` rows of a statement were decoded and
/// written, one after the other; the first row that is refused decides
/// the error.
pub open spec fn write_rows(
    s: Seq<UserModel>,
    columns: Seq<Seq<char>>,
    rows: Seq<Seq<Option<Value>>>,
    kind: InsertKind,
    now: int,
    n: nat,
) -> Result<Seq<UserModel>, TableError>
    decreases n,
{
    if n == 0 {
        Ok(s)
    } else {
        match write_rows(s, columns, rows, kind, now, (n - 1) as nat) {
            Err(e) => Err(e),
            Ok(before) => match decoded(columns, rows[n - 1]) {
                Err(e) => Err(e),
                Ok(row) => write_row(before, row, kind, now),
            },
        }
    }
}

/// Every column that the statement names is a column of the users table.
pub open spec fn columns_known(columns: Seq<Seq<char>>) -> bool {
    forall|i: int| 0 <= i < columns.len() ==> known_column(#[trigger] columns[i])
}

/// The table after a statement was run at time `now`, or why the statement
/// was refused.
pub open spec fn applied(s: Seq<UserModel>, stmt: InsertModel, now: int) -> Result<
    Seq<UserModel>,
    TableError,
> {
    if stmt.table != "users"@ {
        Err(TableError::UnknownTable)
    } else if !columns_known(stmt.columns) {
        Err(TableError::UnknownColumn)
    } else {
        write_rows(s, stmt.columns, stmt.rows, stmt.kind, now, stmt.rows.len())
    }
}

fn same_text(a: &String, b: &str) -> (res: bool)
    ensures
        res == (a@ == b@),
{
    let other = String::from_str(b);
    *a == other
}

fn find_column(columns: &Vec<String>, name: &str) -> (i: usize)
    ensures
        i == column_index(texts(columns@), name@, 0),
        i <= columns@.len(),
{
    let mut i: usize = 0;
    while i < columns.len() && !same_text(&columns[i], name)
        invariant
            i <= columns@.len(),
            column_index(texts(columns@), name@, 0) == column_index(
                texts(columns@),
                name@,
                i as int,
            ),
        decreases columns@.len() - i,
    {
        i += 1;
    }
    i
}

fn all_known(columns: &Vec<String>) -> (res: bool)
    ensures
        res == columns_known(texts(columns@)),
{
    let mut i: usize = 0;
    while i < columns.len()
        invariant
            i <= columns@.len(),
            forall|k: int| 0 <= k < i ==> known_column(#[trigger] texts(columns@)[k]),
        decreases columns@.len() - i,
    {
        let c = &columns[i];
        if !(same_text(c, "id") || same_text(c, "name") || same_text(c, "hair_color")) {
            proof {
                assert(!known_column(texts(columns@)[i as int]));
            }
            return false;
        }
        i += 1;
    }
    true
}

/// The slots of a row, viewed.
pub open spec fn row_view(row: Seq<Option<SqlValue>>) -> Seq<Option<Value>> {
    Seq::new(row.len(), |j: int| slot_view(row[j]))
}

/// Reads the row that the slots of a statement's row stand for.
pub fn decode_row(columns: &Vec<String>, row: &Vec<Option<SqlValue>>) -> (res: Result<
    NewUser,
    TableError,
>)
    ensures
        match res {
            Ok(user) => decoded(texts(columns@), row_view(row@)) == Ok::<NewUserModel, TableError>(
                user@,
            ),
            Err(e) => decoded(texts(columns@), row_view(row@)) == Err::<NewUserModel, TableError>(e),
        },
{
    let id_at = find_column(columns, "id");
    let name_at = find_column(columns, "name");
    let hair_at = find_column(columns, "hair_color");
    let width = columns.len();
    let name: String = if name_at < width && name_at < row.len() {
        match &row[name_at] {
            None => {
                return Err(TableError::MissingDefault);
            },
            Some(SqlValue::Text(s)) => s.clone(),
            Some(_) => {
                return Err(TableError::TypeMismatch);
            },
        }
    } else {
        return Err(TableError::MissingDefault);
    };
    let id: Option<i32> = if id_at < width && id_at < row.len() {
        match &row[id_at] {
            None => None,
            Some(SqlValue::Integer(i)) => Some(*i),
            Some(_) => {
                return Err(TableError::TypeMismatch);
            },
        }
    } else {
        None
    };
    let hair_color: Option<String> = if hair_at < width && hair_at < row.len() {
        match &row[hair_at] {
            None => None,
            Some(SqlValue::Text(s)) => Some(s.clone()),
            Some(_) => {
                return Err(TableError::TypeMismatch);
            },
        }
    } else {
        None
    };
    Ok(NewUser { id, name, hair_color })
}

/// The view of the outcome of a write: the table as it is now, or the error.
pub open spec fn write_view<T>(table: UserTable, res: Result<T, TableError>) -> Result<
    Seq<UserModel>,
    TableError,
> {
    match res {
        Ok(_) => Ok(table@),
        Err(e) => Err(e),
    }
}

/// How many rows a statement that was run affected: for a replace, the
/// rows of the statement, each of which was written; else the rows that
/// the table gained, which leaves out the rows that were skipped.
pub open spec fn affected_rows(before: Seq<UserModel>, after: Seq<UserModel>, stmt: InsertModel) -> int {
    if stmt.kind == InsertKind::Replace {
        stmt.rows.len() as int
    } else {
        after.len() - before.len()
    }
}

impl UserTable {
    /// Writes one row at time `now`. Where the row is refused the table
    /// stays as it was.
    pub fn write(&mut self, row: NewUser, kind: InsertKind, now: i64) -> (res: Result<
        (),
        TableError,
    >)
        requires
            old(self).well_formed(),
        ensures
            final(self).well_formed(),
            write_view(*final(self), res) == write_row(old(self)@, row@, kind, now as int),
            res is Err ==> final(self)@ == old(self)@,
            final(self)@.len() >= old(self)@.len(),
    {
        match row.id {
            None => {
                let form = UserForm { name: row.name, hair_color: row.hair_color };
                match self.insert_form(&form, now) {
                    Ok(_) => Ok(()),
                    Err(e) => Err(e),
                }
            },
            Some(id) => {
                let keyed = KeyedUser { id, name: row.name, hair_color: row.hair_color };
                let ghost full = stamped(keyed, now as int);
                proof {
                    lemma_position_from(self@, id as int, 0);
                }
                match kind {
                    InsertKind::Insert => self.insert_keyed(&keyed, now),
                    InsertKind::Replace => {
                        let batch = vec![keyed];
                        proof {
                            assert(stamped_all(batch@, now as int)[0] == full);
                            assert(crate::users::replace_all(
                                self@,
                                stamped_all(batch@, now as int),
                                0,
                            ) == self@);
                        }
                        self.replace(&batch, now);
                        Ok(())
                    },
                    InsertKind::InsertOrIgnore => {
                        let batch = vec![keyed];
                        proof {
                            assert(stamped_all(batch@, now as int)[0] == full);
                            assert(crate::users::ignore_all(
                                self@,
                                stamped_all(batch@, now as int),
                                0,
                            ) == self@);
                        }
                        let _ = self.insert_or_ignore(&batch, now);
                        Ok(())
                    },
                }
            },
        }
    }

    /// Runs an INSERT statement against the table at time `now`: every row
    /// of the statement is written, in order, and the number of affected
    /// rows is returned, or the statement is refused and the table stays as
    /// it was.
    pub fn apply(&mut self, stmt: &InsertStatement, now: i64) -> (res: Result<usize, TableError>)
        requires
            old(self).well_formed(),
        ensures
            final(self).well_formed(),
            write_view(*final(self), res) == applied(old(self)@, stmt@, now as int),
            res is Err ==> final(self)@ == old(self)@,
            res is Ok ==> res->Ok_0 == affected_rows(old(self)@, final(self)@, stmt@),
    {
        if !same_text(&stmt.table, "users") {
            return Err(TableError::UnknownTable);
        }
        if !all_known(&stmt.columns) {
            return Err(TableError::UnknownColumn);
        }
        let ghost start = self@;
        let ghost columns = texts(stmt.columns@);
        let ghost rows = rows_view(stmt.rows@);
        let mut work = self.snapshot();
        let mut i: usize = 0;
        while i < stmt.rows.len()
            invariant
                i <= stmt.rows@.len(),
                work.well_formed(),
                work@.len() >= start.len(),
                self.well_formed(),
                self@ == start,
                stmt.table@ == "users"@,
                columns_known(columns),
                columns == texts(stmt.columns@),
                rows == rows_view(stmt.rows@),
                write_rows(start, columns, rows, stmt.kind, now as int, i as nat) == Ok::<
                    Seq<UserModel>,
                    TableError,
                >(work@),
            decreases stmt.rows@.len() - i,
        {
            proof {
                assert(rows[i as int] =~= row_view(stmt.rows@[i as int]@));
            }
            match decode_row(&stmt.columns, &stmt.rows[i]) {
                Err(e) => {
                    proof {
                        lemma_write_error_stays(
                            start,
                            columns,
                            rows,
                            stmt.kind,
                            now as int,
                            (i + 1) as nat,
                            stmt.rows@.len(),
                        );
                    }
                    return Err(e);
                },
                Ok(row) => match work.write(row, stmt.kind, now) {
                    Err(e) => {
                        proof {
                            lemma_write_error_stays(
                                start,
                                columns,
                                rows,
                                stmt.kind,
                                now as int,
                                (i + 1) as nat,
                                stmt.rows@.len(),
                            );
                        }
                        return Err(e);
                    },
                    Ok(_) => {},
                },
            }
            i += 1;
        }
        let affected = match stmt.kind {
            InsertKind::Replace => stmt.rows.len(),
            _ => work.len() - self.len(),
        };
        *self = work;
        Ok(affected)
    }
}

proof fn lemma_write_error_stays(
    s: Seq<UserModel>,
    columns: Seq<Seq<char>>,
    rows: Seq<Seq<Option<Value>>>,
    kind: InsertKind,
    now: int,
    n: nat,
    m: nat,
)
    requires
        n <= m,
        write_rows(s, columns, rows, kind, now, n) is Err,
    ensures
        write_rows(s, columns, rows, kind, now, m) == write_rows(s, columns, rows, kind, now, n),
    decreases m - n,
{
    if n < m {
        lemma_write_error_stays(s, columns, rows, kind, now, n, (m - 1) as nat);
    }
}

} // verus!
