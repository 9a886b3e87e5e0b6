use query_facade::insert::{insert_batch, insert_row, BuildError, Field, InsertKind};
use query_facade::text::SqlValue;

#[test]
fn batch_of_absent_rows_is_refused() {
    let rows: Vec<Vec<Field>> = vec![vec![], vec![]];
    let res = insert_batch(InsertKind::Insert, "users", &rows);
    assert_eq!(res.unwrap_err(), BuildError::EmptyBatch);
}

#[test]
fn batch_without_rows_is_refused() {
    let rows: Vec<Vec<Field>> = vec![];
    let res = insert_batch(InsertKind::Insert, "users", &rows);
    assert_eq!(res.unwrap_err(), BuildError::EmptyBatch);
}

#[test]
fn batch_with_other_columns_is_refused() {
    let rows = vec![
        vec![Field::text("name", "Sean")],
        vec![Field::text("hair_color", "Black")],
    ];
    let res = insert_batch(InsertKind::Insert, "users", &rows);
    assert_eq!(res.unwrap_err(), BuildError::ColumnMismatch);
}

#[test]
fn batch_with_longer_row_is_refused() {
    let rows = vec![
        vec![Field::text("name", "Sean")],
        vec![Field::text("name", "Tess"), Field::text("hair_color", "Brown")],
    ];
    let res = insert_batch(InsertKind::Insert, "users", &rows);
    assert_eq!(res.unwrap_err(), BuildError::ColumnMismatch);
}

#[test]
fn uniform_batch_lists_its_columns_in_order() {
    let rows = vec![
        vec![Field::absent("hair_color"), Field::text("name", "Sean"), Field::integer("id", 7)],
        vec![Field::text("hair_color", "Red"), Field::text("name", "Tess"), Field::integer("id", -8)],
    ];
    let stmt = insert_batch(InsertKind::Insert, "users", &rows).unwrap();
    assert_eq!(stmt.columns, vec!["hair_color", "name", "id"]);
    assert_eq!(stmt.rows.len(), 2);
    assert!(stmt.rows.iter().all(|r| r.len() == 3));
    assert_eq!(
        stmt.render(),
        "INSERT INTO `users` (`hair_color`, `name`, `id`) VALUES (DEFAULT, ?, ?), (?, ?, ?) \
         -- binds: [\"Sean\", 7, \"Red\", \"Tess\", -8]"
    );
}

#[test]
fn leading_absent_row_takes_the_later_columns() {
    let rows = vec![vec![], vec![Field::text("name", "Sean")]];
    let stmt = insert_batch(InsertKind::Insert, "users", &rows).unwrap();
    assert_eq!(
        stmt.render(),
        "INSERT INTO `users` (`name`) VALUES (DEFAULT), (?) -- binds: [\"Sean\"]"
    );
}

#[test]
fn replace_and_ignore_have_their_keywords() {
    let replace =
        insert_row(InsertKind::Replace, "users", vec![Field::integer("id", 1)]).unwrap();
    assert_eq!(replace.render(), "REPLACE INTO `users` (`id`) VALUES (?) -- binds: [1]");
    let ignore =
        insert_row(InsertKind::InsertOrIgnore, "users", vec![Field::integer("id", 1)]).unwrap();
    assert_eq!(ignore.render(), "INSERT IGNORE INTO `users` (`id`) VALUES (?) -- binds: [1]");
}

#[test]
fn single_row_without_fields_is_refused() {
    let res = insert_row(InsertKind::Insert, "users", vec![]);
    assert_eq!(res.unwrap_err(), BuildError::EmptyBatch);
}

#[test]
fn bound_text_is_quoted_and_escaped() {
    assert_eq!(SqlValue::text("Sean").bind_text(), "\"Sean\"");
    assert_eq!(SqlValue::text("a\"b\\c\n").bind_text(), "\"a\\\"b\\\\c\\n\"");
    assert_eq!(SqlValue::text("").bind_text(), "\"\"");
}

#[test]
fn bound_integers_are_decimal() {
    assert_eq!(SqlValue::Integer(0).bind_text(), "0");
    assert_eq!(SqlValue::Integer(3).bind_text(), "3");
    assert_eq!(SqlValue::Integer(-40).bind_text(), "-40");
    assert_eq!(SqlValue::Integer(i32::MAX).bind_text(), "2147483647");
    assert_eq!(SqlValue::Integer(i32::MIN).bind_text(), "-2147483648");
}

#[test]
fn bound_booleans_are_words() {
    assert_eq!(SqlValue::Boolean(true).bind_text(), "true");
    assert_eq!(SqlValue::Boolean(false).bind_text(), "false");
}

#[test]
fn optional_text_field_follows_its_value() {
    let some = Field::optional_text("hair_color", Some("Black"));
    let none = Field::optional_text("hair_color", None);
    let stmt = insert_batch(InsertKind::Insert, "users", &vec![vec![some], vec![none]]).unwrap();
    assert_eq!(
        stmt.render(),
        "INSERT INTO `users` (`hair_color`) VALUES (?), (DEFAULT) -- binds: [\"Black\"]"
    );
}

#[test]
fn backticks_in_identifiers_are_doubled() {
    let stmt = insert_row(InsertKind::Insert, "odd`table", vec![Field::integer("a`b``", 1)])
        .unwrap();
    assert_eq!(
        stmt.render(),
        "INSERT INTO `odd``table` (`a``b`````) VALUES (?) -- binds: [1]"
    );
    assert_eq!(stmt.statement_text(), "INSERT INTO `odd``table` (`a``b`````) VALUES (?)");
    assert_eq!(stmt.bound_values().len(), 1);
}
