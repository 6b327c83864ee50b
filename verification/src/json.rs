use vstd::prelude::*;

verus! {

/// A JSON document as plain values: what the decoder reads of a response
/// body. Numbers are kept only as far as the page schema needs them: a
/// number that is a `u64` carries its value, any other number carries
/// `None` and can satisfy no field of the schema.
pub enum Json {
    Null,
    Bool(bool),
    Num(Option<u64>),
    Str(String),
    Arr(Vec<Json>),
    Obj(Vec<(String, Json)>),
}

/// The value of the first field named `key`, if any.
pub open spec fn obj_lookup(fields: Seq<(String, Json)>, key: Seq<char>) -> Option<Json>
    decreases fields.len(),
{
    if fields.len() == 0 {
        None
    } else if fields[0].0@ == key {
        Some(fields[0].1)
    } else {
        obj_lookup(fields.drop_first(), key)
    }
}

/// Look a field up in a decoded JSON object.
pub fn json_obj_get<'a>(fields: &'a Vec<(String, Json)>, key: &String) -> (r: Option<&'a Json>)
    ensures
        match r {
            Some(j) => obj_lookup(fields@, key@) == Some(*j),
            None => obj_lookup(fields@, key@) is None,
        },
{
    let mut i: usize = 0;
    proof {
        assert(fields@.skip(0) =~= fields@);
    }
    while i < fields.len()
        invariant
            i <= fields@.len(),
            obj_lookup(fields@.skip(i as int), key@) == obj_lookup(fields@, key@),
        decreases fields@.len() - i,
    {
        proof {
            assert(fields@.skip(i as int)[0] == fields@[i as int]);
            assert(fields@.skip(i as int).drop_first() =~= fields@.skip(i as int + 1));
        }
        if fields[i].0 == *key {
            return Some(&fields[i].1);
        }
        i = i + 1;
    }
    proof {
        assert(fields@.skip(i as int) =~= Seq::<(String, Json)>::empty());
    }
    None
}

/// What `serde_json` makes of a string: the parsed document as plain
/// values, or `None` where the string is not valid JSON. Parsing is a
/// function of the characters alone.
pub uninterp spec fn parsed_json(s: Seq<char>) -> Option<Json>;

#[verifier::external_type_specification]
#[verifier::external_body]
pub struct ExValue(serde_json::Value);

/// Relies on the shape of `serde_json::Value` alone: each variant is moved
/// into the matching `Json` variant, numbers through `Number::as_u64`.
#[verifier::external_body]
fn json_of_value(v: serde_json::Value) -> Json {
    match v {
        serde_json::Value::Null => Json::Null,
        serde_json::Value::Bool(b) => Json::Bool(b),
        serde_json::Value::Number(n) => Json::Num(n.as_u64()),
        serde_json::Value::String(s) => Json::Str(s),
        serde_json::Value::Array(a) => Json::Arr(a.into_iter().map(json_of_value).collect()),
        serde_json::Value::Object(o) => Json::Obj(
            o.into_iter().map(|(k, w)| (k, json_of_value(w))).collect(),
        ),
    }
}

/// Relies on `serde_json::from_str::<serde_json::Value>`: what a string
/// parses to depends on its characters alone, and a string that is not
/// valid JSON is refused with an error.
#[verifier::external_body]
pub(crate) fn parse_json(s: &str) -> (r: Result<Json, String>)
    ensures
        (match r {
            Ok(j) => parsed_json(s@) == Some(j),
            Err(_) => parsed_json(s@) is None,
        }),
{
    match serde_json::from_str::<serde_json::Value>(s) {
        Ok(v) => Ok(json_of_value(v)),
        Err(e) => Err(e.to_string()),
    }
}

} // verus!
