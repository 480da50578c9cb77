//! JSON documents: the ones that are written to be hashed, and the ones that
//! are read for their fields.

use vstd::prelude::*;

use crate::text::same;

verus! {

// ---- Writing ----------------------------------------------------------------

/// The fields of an object of text, as plain values.
pub open spec fn field_texts(fields: Seq<(String, String)>) -> Seq<(Seq<char>, Seq<char>)> {
    fields.map_values(|field: (String, String)| (field.0@, field.1@))
}

/// The fields of an object of objects of text, as plain values.
pub open spec fn document_texts(document: Seq<(String, Vec<(String, String)>)>) -> Seq<
    (Seq<char>, Seq<(Seq<char>, Seq<char>)>),
> {
    document.map_values(
        |part: (String, Vec<(String, String)>)| (part.0@, field_texts(part.1@)),
    )
}

/// The JSON text of an object whose fields are objects of text.
pub uninterp spec fn json_document(
    document: Seq<(Seq<char>, Seq<(Seq<char>, Seq<char>)>)>,
) -> Seq<u8>;

/// Whether no two fields have the same name.
pub open spec fn names_differ<T>(fields: Seq<(Seq<char>, T)>) -> bool {
    forall|i: int, j: int|
        #![trigger fields[i], fields[j]]
        0 <= i < j < fields.len() ==> fields[i].0 != fields[j].0
}

/// `serde_json::to_vec` of a map of maps of text: the JSON text depends on
/// the names and the values alone, and such a map always has one.
#[verifier::external_body]
pub(crate) fn to_json(document: &Vec<(String, Vec<(String, String)>)>) -> (r: Vec<u8>)
    requires
        names_differ(document_texts(document@)),
        forall|i: int|
            0 <= i < document@.len() ==> names_differ(field_texts((#[trigger] document@[i]).1@)),
    ensures
        r@ == json_document(document_texts(document@)),
{
    let mut parts = std::collections::BTreeMap::new();
    for (name, fields) in document {
        let mut values = std::collections::BTreeMap::new();
        for (field, value) in fields {
            values.insert(field, value);
        }
        parts.insert(name, values);
    }
    serde_json::to_vec(&parts).unwrap_or_default()
}

// ---- Reading ----------------------------------------------------------------

/// What a field holds that is read.
#[derive(Debug, PartialEq, Eq)]
pub enum JsonField {
    Text(String),
    /// A number, where it is one of 64 bits without a sign.
    Number(Option<u64>),
    /// Anything else.
    Other,
}

/// What a field holds that is read, as a plain value.
pub ghost enum FieldText {
    Text(Seq<char>),
    Number(Option<u64>),
    Other,
}

impl View for JsonField {
    type V = FieldText;

    open spec fn view(&self) -> FieldText {
        match *self {
            JsonField::Text(text) => FieldText::Text(text@),
            JsonField::Number(number) => FieldText::Number(number),
            JsonField::Other => FieldText::Other,
        }
    }
}

/// The fields of an object, as plain values.
pub open spec fn object_texts(fields: Seq<(String, JsonField)>) -> Seq<(Seq<char>, FieldText)> {
    fields.map_values(|field: (String, JsonField)| (field.0@, field.1@))
}

/// The fields of a JSON object, or why a text is not JSON. A JSON value that
/// is no object has none.
pub uninterp spec fn parsed_object(bytes: Seq<u8>) -> Result<Seq<(Seq<char>, FieldText)>, Seq<char>>;

/// `serde_json::from_slice` to a JSON value: its fields, or the report of
/// the error, depend on the bytes alone. A number is what `as_u64` gives of
/// it.
#[verifier::external_body]
pub(crate) fn parse_object(bytes: &Vec<u8>) -> (r: Result<Vec<(String, JsonField)>, String>)
    ensures
        match r {
            Ok(fields) => parsed_object(bytes@) == Ok::<Seq<(Seq<char>, FieldText)>, Seq<char>>(
                object_texts(fields@),
            ),
            Err(error) => parsed_object(bytes@) == Err::<Seq<(Seq<char>, FieldText)>, Seq<char>>(
                error@,
            ),
        },
{
    let value: serde_json::Value = serde_json::from_slice(bytes).map_err(|error| error.to_string())?;
    let serde_json::Value::Object(object) = value else { return Ok(Vec::new()) };
    let mut fields = Vec::new();
    for (name, value) in object {
        let field = match value {
            serde_json::Value::String(text) => JsonField::Text(text),
            serde_json::Value::Number(number) => JsonField::Number(number.as_u64()),
            _ => JsonField::Other,
        };
        fields.push((name, field));
    }
    Ok(fields)
}

/// What the last of the first `n` fields with a name holds.
pub open spec fn field_of(fields: Seq<(Seq<char>, FieldText)>, name: Seq<char>, n: nat) -> FieldText
    decreases n,
{
    if n == 0 {
        FieldText::Other
    } else if fields[n - 1].0 == name {
        fields[n - 1].1
    } else {
        field_of(fields, name, (n - 1) as nat)
    }
}

/// The text of a field: empty where it holds none.
pub open spec fn text_of(fields: Seq<(Seq<char>, FieldText)>, name: Seq<char>) -> Seq<char> {
    match field_of(fields, name, fields.len()) {
        FieldText::Text(text) => text,
        _ => Seq::empty(),
    }
}

/// The number of a field: zero where it holds none.
pub open spec fn number_of(fields: Seq<(Seq<char>, FieldText)>, name: Seq<char>) -> u64 {
    match field_of(fields, name, fields.len()) {
        FieldText::Number(Some(number)) => number,
        _ => 0,
    }
}

fn find_field<'a>(fields: &'a Vec<(String, JsonField)>, name: &str) -> (r: Option<&'a JsonField>)
    ensures
        match r {
            Some(field) => field_of(object_texts(fields@), name@, fields@.len()) == field@,
            None => field_of(object_texts(fields@), name@, fields@.len()) == FieldText::Other,
        },
{
    let ghost all = object_texts(fields@);
    let mut i: usize = fields.len();
    while i > 0
        invariant
            i <= fields@.len(),
            field_of(all, name@, fields@.len()) == field_of(all, name@, i as nat),
        decreases i,
    {
        i -= 1;
        proof {
            assert(all[i as int] == (fields@[i as int].0@, fields@[i as int].1@));
        }
        if same(&fields[i].0, name) {
            return Some(&fields[i].1);
        }
    }
    None
}

/// The text of a field: empty where it holds none.
pub fn field_text(fields: &Vec<(String, JsonField)>, name: &str) -> (r: String)
    ensures
        r@ == text_of(object_texts(fields@), name@),
{
    match find_field(fields, name) {
        Some(JsonField::Text(text)) => text.clone(),
        _ => String::new(),
    }
}

/// The number of a field: zero where it holds none.
pub fn field_number(fields: &Vec<(String, JsonField)>, name: &str) -> (r: u64)
    ensures
        r == number_of(object_texts(fields@), name@),
{
    match find_field(fields, name) {
        Some(JsonField::Number(Some(number))) => *number,
        _ => 0,
    }
}

// ---- Laws -------------------------------------------------------------------

/// A field is read by its name: of two of one name the later, and nothing
/// of a name that no field has.
pub proof fn law_fields_are_read_by_name(
    fields: Seq<(Seq<char>, FieldText)>,
    name: Seq<char>,
    i: int,
)
    ensures
        (forall|j: int| 0 <= j < fields.len() ==> (#[trigger] fields[j]).0 != name) ==> text_of(
            fields,
            name,
        ) == Seq::<char>::empty() && number_of(fields, name) == 0,
        0 <= i < fields.len() && fields[i].0 == name && (forall|j: int|
            i < j < fields.len() ==> (#[trigger] fields[j]).0 != name) ==> {
            &&& fields[i].1 matches FieldText::Text(text) ==> text_of(fields, name) == text
                && number_of(fields, name) == 0
            &&& fields[i].1 matches FieldText::Number(Some(number)) ==> number_of(fields, name)
                == number && text_of(fields, name) == Seq::<char>::empty()
        },
{
    lemma_field_of(fields, name, i, fields.len());
}

proof fn lemma_field_of(fields: Seq<(Seq<char>, FieldText)>, name: Seq<char>, i: int, n: nat)
    requires
        n <= fields.len(),
    ensures
        (forall|j: int| 0 <= j < n ==> (#[trigger] fields[j]).0 != name) ==> field_of(
            fields,
            name,
            n,
        ) == FieldText::Other,
        0 <= i < n && fields[i].0 == name && (forall|j: int|
            i < j < n ==> (#[trigger] fields[j]).0 != name) ==> field_of(fields, name, n)
            == fields[i].1,
    decreases n,
{
    if n > 0 {
        lemma_field_of(fields, name, i, (n - 1) as nat);
    }
}

} // verus!
