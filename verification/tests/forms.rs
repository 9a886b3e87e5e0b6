use query_facade::facade::{insert_from_form, insert_from_forms, FacadeError};
use query_facade::form::{form_from_fields, parse_form, parse_forms, FormError, JsonField};
use query_facade::insert::BuildError;
use query_facade::users::{UserForm, UserTable};

fn field(key: &str, value: Option<&str>) -> JsonField {
    JsonField { key: key.to_string(), value: value.map(|v| v.to_string()) }
}

#[test]
fn form_with_both_fields() {
    let form = parse_form(r#"{ "name": "Sean", "hair_color": "Black" }"#).unwrap();
    assert_eq!(form, UserForm { name: "Sean".to_string(), hair_color: Some("Black".to_string()) });
}

#[test]
fn null_and_missing_hair_colour_are_the_same() {
    let null = parse_form(r#"{ "name": "Ruby", "hair_color": null }"#).unwrap();
    let missing = parse_form(r#"{ "name": "Ruby" }"#).unwrap();
    assert_eq!(null, UserForm { name: "Ruby".to_string(), hair_color: None });
    assert_eq!(null, missing);
}

#[test]
fn form_without_name_is_refused() {
    assert_eq!(parse_form(r#"{ "hair_color": "Black" }"#), Err(FormError::MissingName));
    assert_eq!(parse_form(r#"{ "name": null }"#), Err(FormError::NullName));
}

#[test]
fn text_that_is_no_object_is_refused() {
    assert_eq!(parse_form("not json"), Err(FormError::Malformed));
    assert_eq!(parse_form(r#"["name"]"#), Err(FormError::Malformed));
    assert_eq!(parse_forms(r#"{ "name": "Sean" }"#), Err(FormError::Malformed));
}

#[test]
fn fields_are_found_by_key() {
    let fields =
        vec![field("hair_color", Some("Red")), field("other", None), field("name", Some("Tess"))];
    let form = form_from_fields(&fields).unwrap();
    assert_eq!(form, UserForm { name: "Tess".to_string(), hair_color: Some("Red".to_string()) });
    assert_eq!(form_from_fields(&vec![]), Err(FormError::MissingName));
}

#[test]
fn list_of_forms_keeps_its_order() {
    let forms = parse_forms(r#"[{ "name": "Sean" }, { "name": "Tess", "hair_color": "Brown" }]"#)
        .unwrap();
    assert_eq!(
        forms,
        vec![
            UserForm { name: "Sean".to_string(), hair_color: None },
            UserForm { name: "Tess".to_string(), hair_color: Some("Brown".to_string()) },
        ]
    );
    assert_eq!(
        parse_forms(r#"[{ "name": "Sean" }, { "hair_color": "x" }]"#),
        Err(FormError::MissingName)
    );
}

#[test]
fn statement_from_json_text() {
    let stmt = insert_from_form(r#"{ "name": "Ruby", "hair_color": null }"#).unwrap();
    assert_eq!(
        stmt.render(),
        "INSERT INTO `users` (`name`, `hair_color`) VALUES (?, DEFAULT) -- binds: [\"Ruby\"]"
    );
    assert_eq!(
        insert_from_form("{").unwrap_err(),
        FacadeError::Form(FormError::Malformed)
    );
    assert_eq!(
        insert_from_forms("[]").unwrap_err(),
        FacadeError::Build(BuildError::EmptyBatch)
    );
}

#[test]
fn form_from_json_is_read_back_from_the_table() {
    let form = parse_form(r#"{ "name": "Ruby", "hair_color": null }"#).unwrap();
    let mut table = UserTable::new();
    let id = table.insert_form(&form, 50).unwrap();
    let read = table.latest(1);
    assert_eq!(read.len(), 1);
    assert_eq!(read[0].id, id);
    assert_eq!(read[0].name, "Ruby");
    assert_eq!(read[0].hair_color, None);
}
