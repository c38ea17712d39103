//! JSON text through `serde_json`: objects whose members the library hands
//! over as plain values (strings, numbers, flags, objects of strings and lists
//! of such objects). The member names come from the callers; the two trusted
//! items only convert them to a `serde_json::Value` and serialise it.
use vstd::prelude::*;
use serde_json::Value;

verus! {

/// Text members by their views.
pub open spec fn text_pairs(v: Seq<(String, String)>) -> Seq<(Seq<char>, Seq<char>)> {
    v.map_values(|p: (String, String)| (p.0@, p.1@))
}

/// Number members by their views.
pub open spec fn number_pairs(v: Seq<(String, u64)>) -> Seq<(Seq<char>, u64)> {
    v.map_values(|p: (String, u64)| (p.0@, p.1))
}

/// Flag members by their views.
pub open spec fn flag_pairs(v: Seq<(String, bool)>) -> Seq<(Seq<char>, bool)> {
    v.map_values(|p: (String, bool)| (p.0@, p.1))
}

/// Members that are objects of strings, by their views.
pub open spec fn map_pairs(v: Seq<(String, Vec<(String, String)>)>) -> Seq<(Seq<char>, Seq<(Seq<char>, Seq<char>)>)> {
    v.map_values(|p: (String, Vec<(String, String)>)| (p.0@, text_pairs(p.1@)))
}

/// Members that are lists of objects of strings, by their views.
pub open spec fn list_pairs(v: Seq<(String, Vec<Vec<(String, String)>>)>) -> Seq<
    (Seq<char>, Seq<Seq<(Seq<char>, Seq<char>)>>),
> {
    v.map_values(
        |p: (String, Vec<Vec<(String, String)>>)|
            (p.0@, p.1@.map_values(|o: Vec<(String, String)>| text_pairs(o@))),
    )
}

/// The text `serde_json::Value::to_string` writes for the object with these
/// string members, number members, boolean members and members that are
/// objects of strings (a later member of the same name replaces an earlier
/// one).
pub uninterp spec fn compact_object_text(
    texts: Seq<(Seq<char>, Seq<char>)>,
    numbers: Seq<(Seq<char>, u64)>,
    flags: Seq<(Seq<char>, bool)>,
    maps: Seq<(Seq<char>, Seq<(Seq<char>, Seq<char>)>)>,
) -> Seq<char>;

/// Compact JSON of an object (`serde_json::Value::to_string`); the contract
/// names the text, a function of the members alone.
#[verifier::external_body]
pub(crate) fn compact_object(
    texts: &Vec<(String, String)>,
    numbers: &Vec<(String, u64)>,
    flags: &Vec<(String, bool)>,
    maps: &Vec<(String, Vec<(String, String)>)>,
) -> (r: String)
    ensures
        r@ == compact_object_text(text_pairs(texts@), number_pairs(numbers@), flag_pairs(flags@), map_pairs(maps@)),
{
    let mut m: serde_json::Map<String, Value> = texts.iter().map(|(k, v)| (k.clone(), v.as_str().into())).collect();
    m.extend(numbers.iter().map(|(k, n)| (k.clone(), (*n).into())));
    m.extend(flags.iter().map(|(k, b)| (k.clone(), (*b).into())));
    m.extend(maps.iter().map(|(k, o)| (k.clone(), o.iter().cloned().collect())));
    Value::Object(m).to_string()
}

/// The text `serde_json::to_string_pretty` writes for the object with these
/// string members, number members and members that are lists of objects of
/// strings (a later member of the same name replaces an earlier one).
pub uninterp spec fn pretty_object_text(
    texts: Seq<(Seq<char>, Seq<char>)>,
    numbers: Seq<(Seq<char>, u64)>,
    lists: Seq<(Seq<char>, Seq<Seq<(Seq<char>, Seq<char>)>>)>,
) -> Seq<char>;

/// Pretty JSON of an object (`serde_json::to_string_pretty`); the contract
/// names the text, a function of the members alone.
#[verifier::external_body]
pub(crate) fn pretty_object(
    texts: &Vec<(String, String)>,
    numbers: &Vec<(String, u64)>,
    lists: &Vec<(String, Vec<Vec<(String, String)>>)>,
) -> (r: String)
    ensures
        r@ == pretty_object_text(text_pairs(texts@), number_pairs(numbers@), list_pairs(lists@)),
{
    let mut m: serde_json::Map<String, Value> = texts.iter().map(|(k, v)| (k.clone(), v.as_str().into())).collect();
    m.extend(numbers.iter().map(|(k, n)| (k.clone(), (*n).into())));
    m.extend(lists.iter().map(|(k, l)| (k.clone(), l.iter().map(|o| o.iter().cloned().collect::<Value>()).collect())));
    serde_json::to_string_pretty(&Value::Object(m)).unwrap_or_default()
}

} // verus!
