//! The statements of the users and posts scenarios, one function for each.
//! Every function builds its statements and hands them back; running them
//! against a database is the caller's part.

use vstd::prelude::*;
use vstd::string::*;
use vstd::pervasive::unreached;
use crate::form::{FormError, json_object, json_object_list, parse_form, parse_forms, parsed_form, parsed_forms, forms_view};
use crate::insert::{
    BuildError, Field, InsertKind, InsertModel, InsertStatement, field_columns, field_values,
    first_filled, has_mismatch, insert_batch, uniform_batch_keeps_columns,
};
use crate::query::{
    Assignment, AssignmentModel, DeleteModel, DeleteStatement, Direction, Filter, FilterModel,
    FilterOp, OrderKey, OrderModel, ProjectionModel, SelectModel, SelectStatement, UpdateModel,
    UpdateStatement, assignments_view, filters_view, names_view, plain_select,
};
use crate::text::{SqlValue, Value};
use crate::apply::{NewUserModel, applied, column_index, decoded, slot_at, write_row, write_rows};
use crate::users::{FormModel, UserForm, UserModel, form_row, latest_rows, next_key};

verus! {

/// An insert into the users table.
pub open spec fn users_insert(
    kind: InsertKind,
    columns: Seq<Seq<char>>,
    rows: Seq<Seq<Option<Value>>>,
) -> InsertModel {
    InsertModel { kind, table: "users"@, columns, rows }
}

/// A text value in a slot.
pub open spec fn text_slot(s: Seq<char>) -> Option<Value> {
    Some(Value::Text(s))
}

/// An integer value in a slot.
pub open spec fn int_slot(i: int) -> Option<Value> {
    Some(Value::Integer(i))
}

fn build_uniform(
    kind: InsertKind,
    table: &str,
    rows: &Vec<Vec<Field>>,
) -> (res: InsertStatement)
    requires
        rows@.len() > 0,
        rows@[0]@.len() > 0,
        forall|i: int|
            0 <= i < rows@.len() ==> #[trigger] field_columns(rows@[i]@) == field_columns(
                rows@[0]@,
            ),
    ensures
        res@.kind == kind,
        res@.table == table@,
        res@.columns == field_columns(rows@[0]@),
        res@.rows.len() == rows@.len(),
        forall|i: int| 0 <= i < rows@.len() ==> #[trigger] res@.rows[i] == field_values(rows@[i]@),
        res@.well_formed(),
{
    proof {
        uniform_batch_keeps_columns(kind, table@, rows@, field_columns(rows@[0]@));
    }
    match insert_batch(kind, table, rows) {
        Ok(stmt) => stmt,
        Err(_) => unreached(),
    }
}

/// Inserts one user with every column left to its default.
pub fn insert_default_values() -> (res: InsertStatement)
    ensures
        res@ == users_insert(
            InsertKind::Insert,
            Seq::empty(),
            seq![Seq::<Option<Value>>::empty()],
        ),
{
    InsertStatement::default_values("users")
}

/// Inserts the user named Sean.
pub fn insert_single_column() -> (res: InsertStatement)
    ensures
        res@ == users_insert(InsertKind::Insert, seq!["name"@], seq![seq![text_slot("Sean"@)]]),
{
    let rows = vec![vec![Field::text("name", "Sean")]];
    let stmt = build_uniform(InsertKind::Insert, "users", &rows);
    proof {
        assert(field_columns(rows@[0]@) =~= seq!["name"@]);
        assert(stmt@.rows[0] =~= seq![text_slot("Sean"@)]);
        assert(stmt@.rows =~= seq![seq![text_slot("Sean"@)]]);
    }
    stmt
}

/// Inserts the user named Tess, with brown hair.
pub fn insert_multiple_columns() -> (res: InsertStatement)
    ensures
        res@ == users_insert(
            InsertKind::Insert,
            seq!["name"@, "hair_color"@],
            seq![seq![text_slot("Tess"@), text_slot("Brown"@)]],
        ),
{
    let rows = vec![vec![Field::text("name", "Tess"), Field::text("hair_color", "Brown")]];
    let stmt = build_uniform(InsertKind::Insert, "users", &rows);
    proof {
        assert(field_columns(rows@[0]@) =~= seq!["name"@, "hair_color"@]);
        assert(stmt@.rows[0] =~= seq![text_slot("Tess"@), text_slot("Brown"@)]);
        assert(stmt@.rows =~= seq![seq![text_slot("Tess"@), text_slot("Brown"@)]]);
    }
    stmt
}

/// The slots that a form fills: its name, and its hair colour or the
/// default.
pub open spec fn form_slots(form: FormModel) -> Seq<Option<Value>> {
    seq![
        text_slot(form.name),
        match form.hair_color {
            Some(c) => text_slot(c),
            None => None,
        },
    ]
}

/// The insert that a list of forms stands for.
pub open spec fn forms_insert(forms: Seq<FormModel>) -> InsertModel {
    users_insert(
        InsertKind::Insert,
        seq!["name"@, "hair_color"@],
        Seq::new(forms.len(), |i: int| form_slots(forms[i])),
    )
}

fn form_fields(form: &UserForm) -> (res: Vec<Field>)
    ensures
        field_columns(res@) == seq!["name"@, "hair_color"@],
        field_values(res@) == form_slots(form@),
{
    let color = match &form.hair_color {
        Some(c) => Field::text("hair_color", c.as_str()),
        None => Field::absent("hair_color"),
    };
    let res = vec![Field::text("name", form.name.as_str()), color];
    proof {
        assert(field_columns(res@) =~= seq!["name"@, "hair_color"@]);
        assert(field_values(res@) =~= form_slots(form@));
    }
    res
}

/// Inserts one user for each form, in one statement. Fails with
/// `EmptyBatch` when there is no form.
pub fn insert_forms(forms: &Vec<UserForm>) -> (res: Result<InsertStatement, BuildError>)
    ensures
        res is Ok <==> forms@.len() > 0,
        res is Ok ==> res->Ok_0@ == forms_insert(forms_view(forms@)),
        res is Err ==> res->Err_0 == BuildError::EmptyBatch,
{
    if forms.len() == 0 {
        return Err(BuildError::EmptyBatch);
    }
    let mut rows: Vec<Vec<Field>> = Vec::new();
    let mut i: usize = 0;
    while i < forms.len()
        invariant
            i <= forms@.len(),
            rows@.len() == i,
            forall|k: int|
                0 <= k < i ==> #[trigger] field_columns(rows@[k]@) == seq!["name"@, "hair_color"@],
            forall|k: int| 0 <= k < i ==> #[trigger] field_values(rows@[k]@) == form_slots(forms@[k]@),
        decreases forms@.len() - i,
    {
        rows.push(form_fields(&forms[i]));
        i += 1;
    }
    proof {
        assert(field_columns(rows@[0]@).len() == rows@[0]@.len());
    }
    let stmt = build_uniform(InsertKind::Insert, "users", &rows);
    proof {
        assert forall|k: int| 0 <= k < forms@.len() implies stmt@.rows[k] == form_slots(
            forms_view(forms@)[k],
        ) by {
            assert(stmt@.rows[k] == field_values(rows@[k]@));
        }
        assert(stmt@.rows =~= forms_insert(forms_view(forms@)).rows);
    }
    Ok(stmt)
}

/// Why no statement came of a JSON text.
#[derive(Clone, Copy, Debug, PartialEq, Eq, Structural)]
pub enum FacadeError {
    /// The text holds no form.
    Form(FormError),
    /// The forms make no statement.
    Build(BuildError),
}

/// The statement that a parsed form stands for.
pub open spec fn form_statement(form: Result<FormModel, FormError>) -> Result<
    InsertModel,
    FacadeError,
> {
    match form {
        Ok(f) => Ok(forms_insert(seq![f])),
        Err(e) => Err(FacadeError::Form(e)),
    }
}

/// The statement that a parsed list of forms stands for.
pub open spec fn forms_statement(forms: Result<Seq<FormModel>, FormError>) -> Result<
    InsertModel,
    FacadeError,
> {
    match forms {
        Ok(list) => if list.len() == 0 {
            Err(FacadeError::Build(BuildError::EmptyBatch))
        } else {
            Ok(forms_insert(list))
        },
        Err(e) => Err(FacadeError::Form(e)),
    }
}

/// The view of the outcome of building a statement from JSON text.
pub open spec fn statement_view(res: Result<InsertStatement, FacadeError>) -> Result<
    InsertModel,
    FacadeError,
> {
    match res {
        Ok(stmt) => Ok(stmt@),
        Err(e) => Err(e),
    }
}

/// Inserts the user that a JSON object describes.
pub fn insert_from_form(json: &str) -> (res: Result<InsertStatement, FacadeError>)
    ensures
        statement_view(res) == form_statement(parsed_form(json_object(json@))),
{
    match parse_form(json) {
        Err(e) => Err(FacadeError::Form(e)),
        Ok(form) => {
            let forms = vec![form];
            proof {
                assert(forms_view(forms@) =~= seq![form@]);
            }
            match insert_forms(&forms) {
                Ok(stmt) => Ok(stmt),
                Err(e) => Err(FacadeError::Build(e)),
            }
        },
    }
}

/// Inserts the users that a JSON array of objects describes, in one
/// statement.
pub fn insert_from_forms(json: &str) -> (res: Result<InsertStatement, FacadeError>)
    ensures
        statement_view(res) == forms_statement(parsed_forms(json_object_list(json@))),
{
    match parse_forms(json) {
        Err(e) => Err(FacadeError::Form(e)),
        Ok(forms) => match insert_forms(&forms) {
            Ok(stmt) => Ok(stmt),
            Err(e) => Err(FacadeError::Build(e)),
        },
    }
}

/// Inserts the user that the form `{ "name": "Sean", "hair_color": "Black" }`
/// describes.
pub fn insert_insertable_struct() -> (res: Result<InsertStatement, FacadeError>)
    ensures
        statement_view(res) == form_statement(
            parsed_form(json_object("{ \"name\": \"Sean\", \"hair_color\": \"Black\" }"@)),
        ),
{
    insert_from_form("{ \"name\": \"Sean\", \"hair_color\": \"Black\" }")
}

/// Inserts the user that the form `{ "name": "Ruby", "hair_color": null }`
/// describes.
pub fn insert_insertable_struct_option() -> (res: Result<InsertStatement, FacadeError>)
    ensures
        statement_view(res) == form_statement(
            parsed_form(json_object("{ \"name\": \"Ruby\", \"hair_color\": null }"@)),
        ),
{
    insert_from_form("{ \"name\": \"Ruby\", \"hair_color\": null }")
}

/// Inserts the users that a list of two forms describes: Sean with black
/// hair and Tess with brown hair.
pub fn insert_insertable_struct_batch() -> (res: Result<InsertStatement, FacadeError>)
    ensures
        statement_view(res) == forms_statement(
            parsed_forms(
                json_object_list(
                    "[{ \"name\": \"Sean\", \"hair_color\": \"Black\" }, { \"name\": \"Tess\", \"hair_color\": \"Brown\" }]"@,
                ),
            ),
        ),
{
    insert_from_forms(
        "[{ \"name\": \"Sean\", \"hair_color\": \"Black\" }, { \"name\": \"Tess\", \"hair_color\": \"Brown\" }]",
    )
}

/// Inserts the users named Sean and Tess in one statement.
pub fn insert_single_column_batch() -> (res: InsertStatement)
    ensures
        res@ == users_insert(
            InsertKind::Insert,
            seq!["name"@],
            seq![seq![text_slot("Sean"@)], seq![text_slot("Tess"@)]],
        ),
{
    let rows = vec![vec![Field::text("name", "Sean")], vec![Field::text("name", "Tess")]];
    proof {
        assert(field_columns(rows@[0]@) =~= seq!["name"@]);
        assert(field_columns(rows@[1]@) =~= seq!["name"@]);
    }
    let stmt = build_uniform(InsertKind::Insert, "users", &rows);
    proof {
        assert(stmt@.rows[0] =~= seq![text_slot("Sean"@)]);
        assert(stmt@.rows[1] =~= seq![text_slot("Tess"@)]);
        assert(stmt@.rows =~= seq![seq![text_slot("Sean"@)], seq![text_slot("Tess"@)]]);
    }
    stmt
}

/// Inserts the user named Sean and a second user whose name is left to
/// its default, in one statement.
pub fn insert_single_column_batch_with_default() -> (res: InsertStatement)
    ensures
        res@ == users_insert(
            InsertKind::Insert,
            seq!["name"@],
            seq![seq![text_slot("Sean"@)], seq![None::<Value>]],
        ),
{
    let rows: Vec<Vec<Field>> = vec![vec![Field::text("name", "Sean")], Vec::new()];
    proof {
        assert(first_filled(rows@, 0) == 0);
        assert(field_columns(rows@[0]@) =~= seq!["name"@]);
        assert(!has_mismatch(rows@, field_columns(rows@[0]@)));
    }
    match insert_batch(InsertKind::Insert, "users", &rows) {
        Ok(stmt) => {
            proof {
                assert(stmt@.rows[0] =~= seq![text_slot("Sean"@)]);
                assert(stmt@.rows[1] =~= seq![None::<Value>]);
                assert(stmt@.rows =~= seq![seq![text_slot("Sean"@)], seq![None::<Value>]]);
            }
            stmt
        },
        Err(_) => unreached(),
    }
}

/// Inserts Sean with black hair and Tess with brown hair in one statement.
pub fn insert_tuple_batch() -> (res: InsertStatement)
    ensures
        res@ == users_insert(
            InsertKind::Insert,
            seq!["name"@, "hair_color"@],
            seq![
                seq![text_slot("Sean"@), text_slot("Black"@)],
                seq![text_slot("Tess"@), text_slot("Brown"@)],
            ],
        ),
{
    let rows = vec![
        vec![Field::text("name", "Sean"), Field::text("hair_color", "Black")],
        vec![Field::text("name", "Tess"), Field::text("hair_color", "Brown")],
    ];
    proof {
        assert(field_columns(rows@[0]@) =~= seq!["name"@, "hair_color"@]);
        assert(field_columns(rows@[1]@) =~= seq!["name"@, "hair_color"@]);
    }
    let stmt = build_uniform(InsertKind::Insert, "users", &rows);
    proof {
        assert(stmt@.rows[0] =~= seq![text_slot("Sean"@), text_slot("Black"@)]);
        assert(stmt@.rows[1] =~= seq![text_slot("Tess"@), text_slot("Brown"@)]);
        assert(stmt@.rows =~= seq![
            seq![text_slot("Sean"@), text_slot("Black"@)],
            seq![text_slot("Tess"@), text_slot("Brown"@)],
        ]);
    }
    stmt
}

/// Inserts Sean with black hair and Ruby with her hair colour left to its
/// default, in one statement.
pub fn insert_tuple_batch_with_default() -> (res: InsertStatement)
    ensures
        res@ == users_insert(
            InsertKind::Insert,
            seq!["name"@, "hair_color"@],
            seq![
                seq![text_slot("Sean"@), text_slot("Black"@)],
                seq![text_slot("Ruby"@), None::<Value>],
            ],
        ),
{
    let rows = vec![
        vec![Field::text("name", "Sean"), Field::text("hair_color", "Black")],
        vec![Field::text("name", "Ruby"), Field::absent("hair_color")],
    ];
    proof {
        assert(field_columns(rows@[0]@) =~= seq!["name"@, "hair_color"@]);
        assert(field_columns(rows@[1]@) =~= seq!["name"@, "hair_color"@]);
    }
    let stmt = build_uniform(InsertKind::Insert, "users", &rows);
    proof {
        assert(stmt@.rows[0] =~= seq![text_slot("Sean"@), text_slot("Black"@)]);
        assert(stmt@.rows[1] =~= seq![text_slot("Ruby"@), None::<Value>]);
        assert(stmt@.rows =~= seq![
            seq![text_slot("Sean"@), text_slot("Black"@)],
            seq![text_slot("Ruby"@), None::<Value>],
        ]);
    }
    stmt
}

/// The rows of a batch of users given by key and name.
pub open spec fn keyed_rows(users: Seq<(i32, &str)>) -> Seq<Seq<Option<Value>>> {
    Seq::new(users.len(), |i: int| seq![int_slot(users[i].0 as int), text_slot(users[i].1@)])
}

/// Writes users given by key and name in one statement of the given kind.
/// Fails with `EmptyBatch` when there is no user.
pub fn insert_keyed(kind: InsertKind, users: &Vec<(i32, &str)>) -> (res: Result<
    InsertStatement,
    BuildError,
>)
    ensures
        res is Ok <==> users@.len() > 0,
        res is Ok ==> res->Ok_0@ == users_insert(kind, seq!["id"@, "name"@], keyed_rows(users@)),
        res is Err ==> res->Err_0 == BuildError::EmptyBatch,
{
    if users.len() == 0 {
        return Err(BuildError::EmptyBatch);
    }
    let mut rows: Vec<Vec<Field>> = Vec::new();
    let mut i: usize = 0;
    while i < users.len()
        invariant
            i <= users@.len(),
            rows@.len() == i,
            forall|k: int| 0 <= k < i ==> #[trigger] field_columns(rows@[k]@) == seq!["id"@, "name"@],
            forall|k: int|
                0 <= k < i ==> #[trigger] field_values(rows@[k]@) == seq![
                    int_slot(users@[k].0 as int),
                    text_slot(users@[k].1@),
                ],
        decreases users@.len() - i,
    {
        let row = vec![Field::integer("id", users[i].0), Field::text("name", users[i].1)];
        proof {
            assert(field_columns(row@) =~= seq!["id"@, "name"@]);
            assert(field_values(row@) =~= seq![
                int_slot(users@[i as int].0 as int),
                text_slot(users@[i as int].1@),
            ]);
        }
        rows.push(row);
        i += 1;
    }
    proof {
        assert(field_columns(rows@[0]@).len() == rows@[0]@.len());
    }
    let stmt = build_uniform(kind, "users", &rows);
    proof {
        assert forall|k: int| 0 <= k < users@.len() implies stmt@.rows[k] == keyed_rows(
            users@,
        )[k] by {
            assert(stmt@.rows[k] == field_values(rows@[k]@));
        }
        assert(stmt@.rows =~= keyed_rows(users@));
    }
    Ok(stmt)
}

/// The columns of the users table, in the order of the table.
pub open spec fn user_columns() -> Seq<Seq<char>> {
    seq!["id"@, "name"@, "hair_color"@, "created_at"@, "updated_at"@]
}

/// The read that stands in for returning inserted users: every column of
/// every user, greatest key first.
pub open spec fn latest_users_model() -> SelectModel {
    SelectModel {
        order: seq![OrderModel { column: "id"@, direction: Direction::Descending }],
        ..plain_select("users"@, ProjectionModel::Columns(user_columns()))
    }
}

/// Reads every column of every user, greatest key first. The caller keeps
/// as many rows as it has just inserted and turns them round.
pub fn latest_users() -> (res: SelectStatement)
    ensures
        res@ == latest_users_model(),
{
    let names = vec!["id", "name", "hair_color", "created_at", "updated_at"];
    proof {
        assert(names_view(names@) =~= user_columns());
    }
    let stmt = SelectStatement::columns("users", &names).order_by(OrderKey::descending("id"));
    proof {
        assert(stmt@.order =~= latest_users_model().order);
    }
    stmt
}

/// Inserts the user named Ruby, and reads the keys of all users, greatest
/// first: the first key read is the one that the insert was given.
pub fn explicit_returning() -> (res: (InsertStatement, SelectStatement))
    ensures
        res.0@ == users_insert(InsertKind::Insert, seq!["name"@], seq![seq![text_slot("Ruby"@)]]),
        res.1@ == (SelectModel {
            order: seq![OrderModel { column: "id"@, direction: Direction::Descending }],
            ..plain_select("users"@, ProjectionModel::Columns(seq!["id"@]))
        }),
{
    let rows = vec![vec![Field::text("name", "Ruby")]];
    let insert = build_uniform(InsertKind::Insert, "users", &rows);
    proof {
        assert(field_columns(rows@[0]@) =~= seq!["name"@]);
        assert(insert@.rows[0] =~= seq![text_slot("Ruby"@)]);
        assert(insert@.rows =~= seq![seq![text_slot("Ruby"@)]]);
    }
    let names = vec!["id"];
    proof {
        assert(names_view(names@) =~= seq!["id"@]);
    }
    let read = SelectStatement::columns("users", &names).order_by(OrderKey::descending("id"));
    proof {
        assert(read@.order =~= seq![
            OrderModel { column: "id"@, direction: Direction::Descending },
        ]);
    }
    (insert, read)
}

/// The reads of the users listing: all names; the distinct names; the
/// number of users; and every column of at most five users named Ruby,
/// latest first, the greater key first among users created together.
pub fn some_users() -> (res: (SelectStatement, SelectStatement, SelectStatement, SelectStatement))
    ensures
        res.0@ == plain_select("users"@, ProjectionModel::Columns(seq!["name"@])),
        res.1@ == (SelectModel {
            distinct: true,
            ..plain_select("users"@, ProjectionModel::Columns(seq!["name"@]))
        }),
        res.2@ == plain_select("users"@, ProjectionModel::CountAll),
        res.3@ == (SelectModel {
            filters: seq![
                FilterModel { column: "name"@, op: FilterOp::Equals, value: Value::Text("Ruby"@) },
            ],
            order: seq![
                OrderModel { column: "created_at"@, direction: Direction::Descending },
                OrderModel { column: "id"@, direction: Direction::Descending },
            ],
            limit: Some(5int),
            ..plain_select("users"@, ProjectionModel::Columns(user_columns()))
        }),
{
    let name_only = vec!["name"];
    proof {
        assert(names_view(name_only@) =~= seq!["name"@]);
    }
    let all_names = SelectStatement::columns("users", &name_only);
    let distinct_names = SelectStatement::columns("users", &name_only).distinct();
    let count = SelectStatement::count("users");
    let names = vec!["id", "name", "hair_color", "created_at", "updated_at"];
    proof {
        assert(names_view(names@) =~= user_columns());
    }
    let rubies = SelectStatement::columns("users", &names).order_by(
        OrderKey::descending("created_at"),
    ).order_by(OrderKey::descending("id")).filter(
        Filter::equals("name", SqlValue::text("Ruby")),
    ).limit(5);
    proof {
        assert(rubies@.filters =~= seq![
            FilterModel { column: "name"@, op: FilterOp::Equals, value: Value::Text("Ruby"@) },
        ]);
        assert(rubies@.order =~= seq![
            OrderModel { column: "created_at"@, direction: Direction::Descending },
            OrderModel { column: "id"@, direction: Direction::Descending },
        ]);
    }
    (all_names, distinct_names, count, rubies)
}

/// The text of the read of all users in ascending order of key.
pub fn all_users() -> (res: String)
    ensures
        res@ == "SELECT * FROM users ORDER BY id"@,
{
    String::from_str("SELECT * FROM users ORDER BY id")
}

/// Deletes every user.
pub fn delete_all_users() -> (res: DeleteStatement)
    ensures
        res@ == (DeleteModel { table: "users"@, filters: Seq::empty() }),
{
    let res = DeleteStatement::new("users", Vec::new());
    proof {
        assert(res@.filters =~= Seq::<FilterModel>::empty());
    }
    res
}

/// The two updates of the users scenario: every user named Rust becomes
/// Ruby with yellow hair, and the user whose key is 1 becomes James.
pub fn update_users() -> (res: (UpdateStatement, UpdateStatement))
    ensures
        res.0@ == (UpdateModel {
            table: "users"@,
            assignments: seq![
                AssignmentModel { column: "name"@, value: Value::Text("Ruby"@) },
                AssignmentModel { column: "hair_color"@, value: Value::Text("yellow"@) },
            ],
            filters: seq![
                FilterModel { column: "name"@, op: FilterOp::Equals, value: Value::Text("Rust"@) },
            ],
        }),
        res.1@ == (UpdateModel {
            table: "users"@,
            assignments: seq![AssignmentModel { column: "name"@, value: Value::Text("James"@) }],
            filters: seq![
                FilterModel { column: "id"@, op: FilterOp::Equals, value: Value::Integer(1) },
            ],
        }),
{
    let first_filters = vec![Filter::equals("name", SqlValue::text("Rust"))];
    let first_set = vec![
        Assignment::new("name", SqlValue::text("Ruby")),
        Assignment::new("hair_color", SqlValue::text("yellow")),
    ];
    proof {
        assert(filters_view(first_filters@) =~= seq![
            FilterModel { column: "name"@, op: FilterOp::Equals, value: Value::Text("Rust"@) },
        ]);
        assert(assignments_view(first_set@) =~= seq![
            AssignmentModel { column: "name"@, value: Value::Text("Ruby"@) },
            AssignmentModel { column: "hair_color"@, value: Value::Text("yellow"@) },
        ]);
    }
    let second_filters = vec![Filter::equals("id", SqlValue::Integer(1))];
    let second_set = vec![Assignment::new("name", SqlValue::text("James"))];
    proof {
        assert(filters_view(second_filters@) =~= seq![
            FilterModel { column: "id"@, op: FilterOp::Equals, value: Value::Integer(1) },
        ]);
        assert(assignments_view(second_set@) =~= seq![
            AssignmentModel { column: "name"@, value: Value::Text("James"@) },
        ]);
    }
    let first = match UpdateStatement::new("users", first_filters, first_set) {
        Some(stmt) => stmt,
        None => unreached(),
    };
    let second = match UpdateStatement::new("users", second_filters, second_set) {
        Some(stmt) => stmt,
        None => unreached(),
    };
    (first, second)
}

/// The four writes of the upsert scenario, in the order in which they run:
/// replace users 1 and 2 by Sean2 and Tess2; replace user 1 by Jim; insert
/// user 1 as Jim unless the key is taken; insert users 1 and 2 as Sean and
/// Tess unless their keys are taken.
pub fn replace_into_users() -> (res: Vec<InsertStatement>)
    ensures
        res@.len() == 4,
        res@[0]@ == users_insert(
            InsertKind::Replace,
            seq!["id"@, "name"@],
            keyed_rows(seq![(1i32, "Sean2"), (2i32, "Tess2")]),
        ),
        res@[1]@ == users_insert(
            InsertKind::Replace,
            seq!["id"@, "name"@],
            keyed_rows(seq![(1i32, "Jim")]),
        ),
        res@[2]@ == users_insert(
            InsertKind::InsertOrIgnore,
            seq!["id"@, "name"@],
            keyed_rows(seq![(1i32, "Jim")]),
        ),
        res@[3]@ == users_insert(
            InsertKind::InsertOrIgnore,
            seq!["id"@, "name"@],
            keyed_rows(seq![(1i32, "Sean"), (2i32, "Tess")]),
        ),
{
    let mut out: Vec<InsertStatement> = Vec::new();
    let both_renamed: Vec<(i32, &str)> = vec![(1, "Sean2"), (2, "Tess2")];
    let jim: Vec<(i32, &str)> = vec![(1, "Jim")];
    let jim_again: Vec<(i32, &str)> = vec![(1, "Jim")];
    let both: Vec<(i32, &str)> = vec![(1, "Sean"), (2, "Tess")];
    proof {
        assert(both_renamed@ =~= seq![(1i32, "Sean2"), (2i32, "Tess2")]);
        assert(jim@ =~= seq![(1i32, "Jim")]);
        assert(jim_again@ =~= seq![(1i32, "Jim")]);
        assert(both@ =~= seq![(1i32, "Sean"), (2i32, "Tess")]);
    }
    out.push(keyed_statement(InsertKind::Replace, both_renamed));
    out.push(keyed_statement(InsertKind::Replace, jim));
    out.push(keyed_statement(InsertKind::InsertOrIgnore, jim_again));
    out.push(keyed_statement(InsertKind::InsertOrIgnore, both));
    out
}

fn keyed_statement(kind: InsertKind, users: Vec<(i32, &str)>) -> (res: InsertStatement)
    requires
        users@.len() > 0,
    ensures
        res@ == users_insert(kind, seq!["id"@, "name"@], keyed_rows(users@)),
{
    match insert_keyed(kind, &users) {
        Ok(stmt) => stmt,
        Err(_) => unreached(),
    }
}

/// Reads the names of all users in ascending order of key.
pub fn names_by_key() -> (res: SelectStatement)
    ensures
        res@ == (SelectModel {
            order: seq![OrderModel { column: "id"@, direction: Direction::Ascending }],
            ..plain_select("users"@, ProjectionModel::Columns(seq!["name"@]))
        }),
{
    let names = vec!["name"];
    proof {
        assert(names_view(names@) =~= seq!["name"@]);
    }
    let stmt = SelectStatement::columns("users", &names).order_by(OrderKey::ascending("id"));
    proof {
        assert(stmt@.order =~= seq![
            OrderModel { column: "id"@, direction: Direction::Ascending },
        ]);
    }
    stmt
}

/// The columns of the posts table, in the order of the table.
pub open spec fn post_columns() -> Seq<Seq<char>> {
    seq!["id"@, "title"@, "body"@, "published"@]
}

/// Inserts a post with the given title and body, and reads the post with
/// the greatest key back.
pub fn create_post(title: &str, body: &str) -> (res: (InsertStatement, SelectStatement))
    ensures
        res.0@ == (InsertModel {
            kind: InsertKind::Insert,
            table: "posts"@,
            columns: seq!["title"@, "body"@],
            rows: seq![seq![text_slot(title@), text_slot(body@)]],
        }),
        res.1@ == (SelectModel {
            order: seq![OrderModel { column: "id"@, direction: Direction::Descending }],
            limit: Some(1int),
            ..plain_select("posts"@, ProjectionModel::Columns(post_columns()))
        }),
{
    let rows = vec![vec![Field::text("title", title), Field::text("body", body)]];
    let insert = build_uniform(InsertKind::Insert, "posts", &rows);
    proof {
        assert(field_columns(rows@[0]@) =~= seq!["title"@, "body"@]);
        assert(insert@.rows[0] =~= seq![text_slot(title@), text_slot(body@)]);
        assert(insert@.rows =~= seq![seq![text_slot(title@), text_slot(body@)]]);
    }
    let names = vec!["id", "title", "body", "published"];
    proof {
        assert(names_view(names@) =~= post_columns());
    }
    let read = SelectStatement::columns("posts", &names).order_by(
        OrderKey::descending("id"),
    ).limit(1);
    proof {
        assert(read@.order =~= seq![
            OrderModel { column: "id"@, direction: Direction::Descending },
        ]);
    }
    (insert, read)
}

/// Running the insert that a form stands for, on a table that has a key
/// left, adds one row with the next free key, the form's name and the
/// form's hair colour (none where the form gives none), and the read of the
/// latest one row gives that row back.
pub proof fn form_insert_round_trip(s: Seq<UserModel>, form: FormModel, now: int)
    requires
        next_key(s) <= i32::MAX,
    ensures
        applied(s, forms_insert(seq![form]), now) == Ok::<Seq<UserModel>, crate::users::TableError>(
            s.push(form_row(s, form, now)),
        ),
        latest_rows(s.push(form_row(s, form, now)), 1) == seq![form_row(s, form, now)],
        form_row(s, form, now).name == form.name,
        form_row(s, form, now).hair_color == form.hair_color,
{
    reveal_strlit("id");
    reveal_strlit("name");
    reveal_strlit("hair_color");
    let stmt = forms_insert(seq![form]);
    let columns = stmt.columns;
    let row = stmt.rows[0];
    assert(columns.len() == 2 && columns[0] == "name"@ && columns[1] == "hair_color"@);
    assert("name"@.len() == 4 && "id"@.len() == 2 && "hair_color"@.len() == 10);
    assert(column_index(columns, "id"@, 2) == 2);
    assert(column_index(columns, "id"@, 1) == 2);
    assert(column_index(columns, "id"@, 0) == 2);
    assert(column_index(columns, "name"@, 0) == 0);
    assert(column_index(columns, "hair_color"@, 1) == 1);
    assert(column_index(columns, "hair_color"@, 0) == 1);
    assert(row =~= form_slots(form));
    assert(slot_at(columns, row, "id"@) == None::<Value>);
    assert(slot_at(columns, row, "name"@) == text_slot(form.name));
    let wanted = NewUserModel { id: None, name: form.name, hair_color: form.hair_color };
    assert(decoded(columns, row) == Ok::<NewUserModel, crate::users::TableError>(wanted));
    assert(write_rows(s, columns, stmt.rows, stmt.kind, now, 0) == Ok::<
        Seq<UserModel>,
        crate::users::TableError,
    >(s));
    assert(write_rows(s, columns, stmt.rows, stmt.kind, now, 1) == write_row(
        s,
        wanted,
        stmt.kind,
        now,
    ));
    assert(latest_rows(s.push(form_row(s, form, now)), 1) =~= seq![form_row(s, form, now)]);
}

} // verus!
