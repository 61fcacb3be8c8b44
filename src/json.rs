//! Reading one line of JSON output into the plain shape that the log
//! parsers need: the top-level object's fields, each string, null or other.
use vstd::prelude::*;

verus! {

/// A top-level field's value, as far as the log parsers look at it.
#[derive(Debug, Clone)]
pub enum JsonField {
    Null,
    Str(String),
    Other,
}

/// One line of JSON.
#[derive(Debug)]
pub enum JsonLine {
    /// Not a JSON document.
    Invalid,
    /// A JSON document that is not an object.
    NotObject,
    /// An object, with its fields.
    Object(Vec<(String, JsonField)>),
}

pub enum FieldView {
    Null,
    Str(Seq<char>),
    Other,
}

pub enum JsonDoc {
    Invalid,
    NotObject,
    Object(Seq<(Seq<char>, FieldView)>),
}

pub open spec fn field_view(f: JsonField) -> FieldView {
    match f {
        JsonField::Null => FieldView::Null,
        JsonField::Str(s) => FieldView::Str(s@),
        JsonField::Other => FieldView::Other,
    }
}

impl View for JsonLine {
    type V = JsonDoc;

    open spec fn view(&self) -> JsonDoc {
        match self {
            JsonLine::Invalid => JsonDoc::Invalid,
            JsonLine::NotObject => JsonDoc::NotObject,
            JsonLine::Object(v) => JsonDoc::Object(
                v@.map_values(|e: (String, JsonField)| (e.0@, field_view(e.1))),
            ),
        }
    }
}

/// What `serde_json` reads from a line of text.
pub uninterp spec fn json_doc(line: Seq<char>) -> JsonDoc;

/// Relies on `serde_json::from_str::<serde_json::Value>`: the document that a
/// line holds, with an object's fields as its map holds them (one per key).
#[verifier::external_body]
pub(crate) fn parse_json(line: &str) -> (r: JsonLine)
    ensures
        r@ == json_doc(line@),
{
    match serde_json::from_str::<serde_json::Value>(line) {
        Err(_) => JsonLine::Invalid,
        Ok(serde_json::Value::Object(m)) => JsonLine::Object(
            m.into_iter().map(|(k, v)| (k, match v {
                serde_json::Value::Null => JsonField::Null,
                serde_json::Value::String(s) => JsonField::Str(s),
                _ => JsonField::Other,
            })).collect(),
        ),
        Ok(_) => JsonLine::NotObject,
    }
}

/// The value of the first field named `key`, if any.
pub open spec fn field_of(fields: Seq<(Seq<char>, FieldView)>, key: Seq<char>) -> Option<FieldView>
    decreases fields.len(),
{
    if fields.len() == 0 {
        None
    } else if fields[0].0 == key {
        Some(fields[0].1)
    } else {
        field_of(fields.drop_first(), key)
    }
}

pub fn get_field<'a>(fields: &'a Vec<(String, JsonField)>, key: &str) -> (r: Option<&'a JsonField>)
    ensures
        match r {
            Some(f) => field_of(
                fields@.map_values(|e: (String, JsonField)| (e.0@, field_view(e.1))),
                key@,
            ) == Some(field_view(*f)),
            None => field_of(
                fields@.map_values(|e: (String, JsonField)| (e.0@, field_view(e.1))),
                key@,
            ) is None,
        },
{
    let ghost fv = fields@.map_values(|e: (String, JsonField)| (e.0@, field_view(e.1)));
    let k = crate::text::chars_of(key);
    let mut i: usize = 0;
    assert(fv.skip(0) =~= fv);
    while i < fields.len()
        invariant
            i <= fields.len(),
            fv == fields@.map_values(|e: (String, JsonField)| (e.0@, field_view(e.1))),
            k@ == key@,
            field_of(fv, key@) == field_of(fv.skip(i as int), key@),
        decreases fields.len() - i,
    {
        let name = crate::text::chars_of(fields[i].0.as_str());
        assert(fv.skip(i as int)[0] == fv[i as int]);
        if crate::text::chars_eq(&name, &k) {
            return Some(&fields[i].1);
        }
        assert(fv.skip(i as int).drop_first() =~= fv.skip(i + 1));
        i += 1;
    }
    None
}

} // verus!
