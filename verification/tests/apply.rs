use query_facade::apply::{decode_row, NewUser};
use query_facade::facade::{
    insert_default_values, insert_single_column_batch_with_default, insert_tuple_batch,
    insert_tuple_batch_with_default, replace_into_users,
};
use query_facade::insert::{insert_row, Field, InsertKind, InsertStatement};
use query_facade::text::SqlValue;
use query_facade::users::{TableError, UserFilter, UserTable};

fn names(table: &UserTable) -> Vec<(i32, String)> {
    table.rows().iter().map(|u| (u.id, u.name.clone())).collect()
}

#[test]
fn insert_of_defaults_lacks_a_name() {
    let mut table = UserTable::new();
    assert_eq!(table.apply(&insert_default_values(), 1), Err(TableError::MissingDefault));
    assert_eq!(table.len(), 0);
}

#[test]
fn batch_with_a_defaulted_name_changes_nothing() {
    let mut table = UserTable::new();
    let stmt = insert_single_column_batch_with_default();
    assert_eq!(table.apply(&stmt, 1), Err(TableError::MissingDefault));
    assert_eq!(table.len(), 0);
}

#[test]
fn tuple_batches_affect_two_rows() {
    let mut table = UserTable::new();
    assert_eq!(table.apply(&insert_tuple_batch(), 5), Ok(2));
    assert_eq!(table.apply(&insert_tuple_batch_with_default(), 6), Ok(2));
    assert_eq!(
        names(&table),
        vec![
            (1, "Sean".to_string()),
            (2, "Tess".to_string()),
            (3, "Sean".to_string()),
            (4, "Ruby".to_string()),
        ]
    );
    assert_eq!(table.rows()[1].hair_color, Some("Brown".to_string()));
    assert_eq!(table.rows()[3].hair_color, None);
    assert_eq!(table.rows()[3].created_at, 6);
}

#[test]
fn upsert_scenario_ends_with_jim_and_tess2() {
    let mut table = UserTable::new();
    let writes = replace_into_users();
    assert_eq!(table.apply(&writes[0], 1), Ok(2));
    assert_eq!(table.apply(&writes[1], 2), Ok(1));
    assert_eq!(names(&table), vec![(1, "Jim".to_string()), (2, "Tess2".to_string())]);
    assert_eq!(table.apply(&writes[2], 3), Ok(0));
    assert_eq!(table.apply(&writes[3], 4), Ok(0));
    assert_eq!(names(&table), vec![(1, "Jim".to_string()), (2, "Tess2".to_string())]);
    assert_eq!(table.rows()[0].updated_at, 2);
    let read = table.select(&UserFilter::Every, false, 10);
    assert_eq!(read.len(), 2);
}

#[test]
fn plain_insert_of_a_taken_key_rolls_back() {
    let mut table = UserTable::new();
    let first = insert_row(
        InsertKind::Insert,
        "users",
        vec![Field::integer("id", 2), Field::text("name", "Tess")],
    )
    .unwrap();
    assert_eq!(table.apply(&first, 1), Ok(1));
    let rows = vec![
        vec![Field::integer("id", 1), Field::text("name", "Sean")],
        vec![Field::integer("id", 2), Field::text("name", "Again")],
    ];
    let batch = query_facade::insert::insert_batch(InsertKind::Insert, "users", &rows).unwrap();
    assert_eq!(table.apply(&batch, 2), Err(TableError::DuplicateKey));
    assert_eq!(names(&table), vec![(2, "Tess".to_string())]);
}

#[test]
fn statements_for_other_tables_and_columns_are_refused() {
    let mut table = UserTable::new();
    let posts =
        insert_row(InsertKind::Insert, "posts", vec![Field::text("name", "x")]).unwrap();
    assert_eq!(table.apply(&posts, 1), Err(TableError::UnknownTable));
    let age = insert_row(
        InsertKind::Insert,
        "users",
        vec![Field::text("name", "x"), Field::integer("age", 3)],
    )
    .unwrap();
    assert_eq!(table.apply(&age, 1), Err(TableError::UnknownColumn));
    let wrong = insert_row(InsertKind::Insert, "users", vec![Field::integer("name", 3)]).unwrap();
    assert_eq!(table.apply(&wrong, 1), Err(TableError::TypeMismatch));
}

#[test]
fn short_row_of_a_hand_made_statement_lacks_its_name() {
    let stmt = InsertStatement {
        kind: InsertKind::Insert,
        table: "users".to_string(),
        columns: vec!["hair_color".to_string(), "name".to_string()],
        rows: vec![vec![Some(SqlValue::text("Black"))]],
    };
    let mut table = UserTable::new();
    assert_eq!(table.apply(&stmt, 1), Err(TableError::MissingDefault));
}

#[test]
fn row_is_decoded_by_column_name() {
    let columns = vec!["hair_color".to_string(), "id".to_string(), "name".to_string()];
    let row = vec![None, Some(SqlValue::Integer(7)), Some(SqlValue::text("Ruby"))];
    let user: NewUser = decode_row(&columns, &row).unwrap();
    assert_eq!(user.id, Some(7));
    assert_eq!(user.name, "Ruby");
    assert_eq!(user.hair_color, None);
}

#[test]
fn form_statement_that_was_run_is_read_back() {
    let stmt = query_facade::facade::insert_from_form(r#"{ "name": "Ruby", "hair_color": null }"#)
        .unwrap();
    let mut table = UserTable::new();
    assert_eq!(table.apply(&stmt, 9), Ok(1));
    let other = query_facade::facade::insert_from_form(
        r#"{ "name": "Sean", "hair_color": "Black" }"#,
    )
    .unwrap();
    assert_eq!(table.apply(&other, 10), Ok(1));
    let read = table.latest(1);
    assert_eq!(read.len(), 1);
    assert_eq!(read[0].id, 2);
    assert_eq!(read[0].name, "Sean");
    assert_eq!(read[0].hair_color, Some("Black".to_string()));
    assert_eq!(read[0].created_at, 10);
}
