//! Forms that arrive as JSON text: an object with a `name` and, where it is
//! known, a `hair_color`, or an array of such objects.

use vstd::prelude::*;
use vstd::string::*;
use crate::users::{FormModel, UserForm, text_view};

verus! {

/// The error of `serde_json`, carried through as an opaque value: nothing
/// is claimed of what it holds.
#[verifier::external_type_specification]
#[verifier::external_body]
pub struct ExJsonError(serde_json::Error);

/// Why a text is not a form.
#[derive(Clone, Copy, Debug, PartialEq, Eq, Structural)]
pub enum FormError {
    /// The text is not JSON of the expected shape.
    Malformed,
    /// The object has no `name`.
    MissingName,
    /// The object's `name` is null.
    NullName,
}

/// One member of a JSON object: its key, and its text unless it is null.
#[derive(Debug)]
pub struct JsonField {
    pub key: String,
    pub value: Option<String>,
}

impl View for JsonField {
    type V = (Seq<char>, Option<Seq<char>>);

    open spec fn view(&self) -> (Seq<char>, Option<Seq<char>>) {
        (self.key@, text_view(self.value))
    }
}

/// The views of a list of members.
pub open spec fn fields_view(fields: Seq<JsonField>) -> Seq<(Seq<char>, Option<Seq<char>>)> {
    Seq::new(fields.len(), |i: int| fields[i]@)
}

/// The views of a list of objects.
pub open spec fn objects_view(objects: Seq<Vec<JsonField>>) -> Seq<
    Seq<(Seq<char>, Option<Seq<char>>)>,
> {
    Seq::new(objects.len(), |i: int| fields_view(objects[i]@))
}

/// The members of the JSON object that a text holds, in the order of their
/// keys, where the text is one JSON object whose members are all strings or
/// null; none for any other text.
pub uninterp spec fn json_object(text: Seq<char>) -> Option<Seq<(Seq<char>, Option<Seq<char>>)>>;

/// The objects of the JSON array that a text holds, each as `json_object`
/// gives one, where the text is one JSON array of such objects; none for any
/// other text.
pub uninterp spec fn json_object_list(text: Seq<char>) -> Option<
    Seq<Seq<(Seq<char>, Option<Seq<char>>)>>,
>;

/// Calls `serde_json::from_str` for a map from strings to optional strings.
/// Trusted: whether the call succeeds, and the members it gives, depend on
/// the text alone; they are named `json_object`.
#[verifier::external_body]
fn read_object(json: &str) -> (res: Result<Vec<JsonField>, serde_json::Error>)
    ensures
        res is Ok <==> json_object(json@) is Some,
        res is Ok ==> fields_view(res->Ok_0@) == json_object(json@)->Some_0,
{
    serde_json::from_str::<std::collections::BTreeMap<String, Option<String>>>(json).map(
        |m| m.into_iter().map(|(key, value)| JsonField { key, value }).collect(),
    )
}

/// Calls `serde_json::from_str` for a list of maps from strings to optional
/// strings. Trusted: whether the call succeeds, and the objects it gives,
/// depend on the text alone; they are named `json_object_list`.
#[verifier::external_body]
fn read_object_list(json: &str) -> (res: Result<Vec<Vec<JsonField>>, serde_json::Error>)
    ensures
        res is Ok <==> json_object_list(json@) is Some,
        res is Ok ==> objects_view(res->Ok_0@) == json_object_list(json@)->Some_0,
{
    serde_json::from_str::<Vec<std::collections::BTreeMap<String, Option<String>>>>(json).map(
        |list| list.into_iter().map(
            |m| m.into_iter().map(|(key, value)| JsonField { key, value }).collect(),
        ).collect(),
    )
}

/// The index of the first member at or after `from` whose key is `key`, or
/// the number of members if there is none.
pub open spec fn find_from(
    fields: Seq<(Seq<char>, Option<Seq<char>>)>,
    key: Seq<char>,
    from: int,
) -> int
    decreases fields.len() - from,
{
    if from < 0 || from >= fields.len() || fields[from].0 == key {
        from
    } else {
        find_from(fields, key, from + 1)
    }
}

/// The form that an object stands for: its `name`, which must be there and
/// must not be null, and its `hair_color`, which may be missing or null.
pub open spec fn form_of(fields: Seq<(Seq<char>, Option<Seq<char>>)>) -> Result<
    FormModel,
    FormError,
> {
    let n = find_from(fields, "name"@, 0);
    let h = find_from(fields, "hair_color"@, 0);
    if n >= fields.len() {
        Err(FormError::MissingName)
    } else if fields[n].1 is None {
        Err(FormError::NullName)
    } else {
        Ok(
            FormModel {
                name: fields[n].1->Some_0,
                hair_color: if h >= fields.len() {
                    None
                } else {
                    fields[h].1
                },
            },
        )
    }
}

/// The form that a parsed text stands for.
pub open spec fn parsed_form(doc: Option<Seq<(Seq<char>, Option<Seq<char>>)>>) -> Result<
    FormModel,
    FormError,
> {
    match doc {
        Some(fields) => form_of(fields),
        None => Err(FormError::Malformed),
    }
}

/// The view of the outcome of reading one form.
pub open spec fn outcome_view(res: Result<UserForm, FormError>) -> Result<FormModel, FormError> {
    match res {
        Ok(form) => Ok(form@),
        Err(e) => Err(e),
    }
}

fn find_field(fields: &Vec<JsonField>, key: &str) -> (i: usize)
    ensures
        i == find_from(fields_view(fields@), key@, 0),
        i <= fields@.len(),
{
    let wanted = String::from_str(key);
    let mut i: usize = 0;
    while i < fields.len() && fields[i].key != wanted
        invariant
            i <= fields@.len(),
            wanted@ == key@,
            find_from(fields_view(fields@), key@, 0) == find_from(
                fields_view(fields@),
                key@,
                i as int,
            ),
        decreases fields@.len() - i,
    {
        i += 1;
    }
    i
}

/// Reads a form from the members of an object.
pub fn form_from_fields(fields: &Vec<JsonField>) -> (res: Result<UserForm, FormError>)
    ensures
        outcome_view(res) == form_of(fields_view(fields@)),
{
    let n = find_field(fields, "name");
    let h = find_field(fields, "hair_color");
    if n >= fields.len() {
        return Err(FormError::MissingName);
    }
    match &fields[n].value {
        None => Err(FormError::NullName),
        Some(name) => {
            let hair_color = if h >= fields.len() {
                None
            } else {
                match &fields[h].value {
                    Some(color) => Some(color.clone()),
                    None => None,
                }
            };
            Ok(UserForm { name: name.clone(), hair_color })
        },
    }
}

/// Reads a form from JSON text.
pub fn parse_form(json: &str) -> (res: Result<UserForm, FormError>)
    ensures
        outcome_view(res) == parsed_form(json_object(json@)),
{
    match read_object(json) {
        Ok(fields) => form_from_fields(&fields),
        Err(_) => Err(FormError::Malformed),
    }
}

/// The views of a list of forms.
pub open spec fn forms_view(forms: Seq<UserForm>) -> Seq<FormModel> {
    Seq::new(forms.len(), |i: int| forms[i]@)
}

/// The forms that a list of objects stands for: every object must stand
/// for a form, and the first that does not decides the error.
pub open spec fn forms_of(objects: Seq<Seq<(Seq<char>, Option<Seq<char>>)>>, n: nat) -> Result<
    Seq<FormModel>,
    FormError,
>
    decreases n,
{
    if n == 0 {
        Ok(Seq::empty())
    } else {
        match forms_of(objects, (n - 1) as nat) {
            Err(e) => Err(e),
            Ok(before) => match form_of(objects[n - 1]) {
                Err(e) => Err(e),
                Ok(form) => Ok(before.push(form)),
            },
        }
    }
}

/// The forms that a parsed text stands for.
pub open spec fn parsed_forms(doc: Option<Seq<Seq<(Seq<char>, Option<Seq<char>>)>>>) -> Result<
    Seq<FormModel>,
    FormError,
> {
    match doc {
        Some(objects) => forms_of(objects, objects.len()),
        None => Err(FormError::Malformed),
    }
}

/// The view of the outcome of reading a list of forms.
pub open spec fn outcomes_view(res: Result<Vec<UserForm>, FormError>) -> Result<
    Seq<FormModel>,
    FormError,
> {
    match res {
        Ok(forms) => Ok(forms_view(forms@)),
        Err(e) => Err(e),
    }
}

/// Reads a list of forms from the objects of an array.
pub fn forms_from_objects(objects: &Vec<Vec<JsonField>>) -> (res: Result<Vec<UserForm>, FormError>)
    ensures
        outcomes_view(res) == forms_of(objects_view(objects@), objects@.len()),
{
    let ghost model = objects_view(objects@);
    let mut out: Vec<UserForm> = Vec::new();
    let mut i: usize = 0;
    proof {
        assert(forms_view(out@) =~= Seq::<FormModel>::empty());
    }
    while i < objects.len()
        invariant
            i <= objects@.len(),
            model == objects_view(objects@),
            forms_of(model, i as nat) == Ok::<Seq<FormModel>, FormError>(forms_view(out@)),
        decreases objects@.len() - i,
    {
        let ghost before = forms_view(out@);
        match form_from_fields(&objects[i]) {
            Ok(form) => {
                out.push(form);
                proof {
                    assert(forms_view(out@) =~= before.push(form@));
                }
            },
            Err(e) => {
                proof {
                    lemma_forms_error_stays(model, (i + 1) as nat, objects@.len());
                }
                return Err(e);
            },
        }
        i += 1;
    }
    Ok(out)
}

proof fn lemma_forms_error_stays(
    objects: Seq<Seq<(Seq<char>, Option<Seq<char>>)>>,
    n: nat,
    m: nat,
)
    requires
        n <= m,
        forms_of(objects, n) is Err,
    ensures
        forms_of(objects, m) == forms_of(objects, n),
    decreases m - n,
{
    if n < m {
        lemma_forms_error_stays(objects, n, (m - 1) as nat);
    }
}

/// Reads a list of forms from JSON text.
pub fn parse_forms(json: &str) -> (res: Result<Vec<UserForm>, FormError>)
    ensures
        outcomes_view(res) == parsed_forms(json_object_list(json@)),
{
    match read_object_list(json) {
        Ok(objects) => forms_from_objects(&objects),
        Err(_) => Err(FormError::Malformed),
    }
}

} // verus!
