use vstd::prelude::*;

use crate::front::FrontMatter;
use crate::PostError;

verus! {

#[verifier::external_type_specification]
#[verifier::external_body]
pub struct ExTomlValue(toml::Value);

#[verifier::external_type_specification]
#[verifier::external_body]
#[verifier::reject_recursive_types(K)]
#[verifier::reject_recursive_types(V)]
pub struct ExTomlMap<K, V>(toml::map::Map<K, V>);

#[verifier::external_type_specification]
#[verifier::external_body]
pub struct ExTomlDeError(toml::de::Error);

/// The shape of one decoded value as this library reads it: a string with
/// its payload, a boolean flag, an array of element shapes, or any other
/// kind (integer, float, datetime, nested table), which the metadata
/// schema never extracts.
pub enum TomlShape {
    Str(Seq<char>),
    Flag(bool),
    List(Seq<TomlShape>),
    Other,
}

/// The shape of a decoded value; what `toml::Value`'s accessors report.
pub uninterp spec fn value_model(v: toml::Value) -> TomlShape;

/// The contents of a decoded table: its top-level keys, each with the
/// shape of its value.
pub uninterp spec fn table_model(t: toml::map::Map<String, toml::Value>) -> Map<
    Seq<char>,
    TomlShape,
>;

/// What decoding a block of text yields: the table contents when the text
/// is well-formed, nothing otherwise. A function of the characters alone.
pub uninterp spec fn toml_table_of(s: Seq<char>) -> Option<Map<Seq<char>, TomlShape>>;

/// Relies on toml::from_str: decodes the metadata block into its key/value
/// table exactly when the block is well-formed, reporting a decode error
/// otherwise; the outcome depends on the characters of the block alone.
#[verifier::external_body]
fn parse_toml_table(s: &str) -> (r: Result<toml::Table, toml::de::Error>)
    ensures
        r is Ok <==> toml_table_of(s@) is Some,
        r matches Ok(t) ==> Some(table_model(t)) == toml_table_of(s@),
{
    toml::from_str(s)
}

/// Relies on toml::map::Map::get: the value under a top-level key, present
/// exactly when the table holds the key.
#[verifier::external_body]
fn table_get<'a>(t: &'a toml::Table, key: &str) -> (r: Option<&'a toml::Value>)
    ensures
        r is Some <==> table_model(*t).contains_key(key@),
        r matches Some(v) ==> table_model(*t).contains_key(key@) && value_model(*v)
            == table_model(*t)[key@],
{
    t.get(key)
}

/// Relies on toml::Value::as_str: the payload of a string value, absent
/// exactly for a value of any other shape.
#[verifier::external_body]
fn value_as_string(v: &toml::Value) -> (r: Option<String>)
    ensures
        r is Some <==> value_model(*v) is Str,
        r matches Some(s) ==> value_model(*v) == TomlShape::Str(s@),
{
    match v.as_str() {
        Some(s) => Some(s.to_owned()),
        None => None,
    }
}

/// Relies on toml::Value::as_bool: the payload of a boolean value, absent
/// exactly for a value of any other shape.
#[verifier::external_body]
fn value_as_bool(v: &toml::Value) -> (r: Option<bool>)
    ensures
        r is Some <==> value_model(*v) is Flag,
        r matches Some(b) ==> value_model(*v) == TomlShape::Flag(b),
{
    v.as_bool()
}

/// Relies on toml::Value::as_array: the elements of an array value, absent
/// exactly for a value of any other shape.
#[verifier::external_body]
fn value_as_array<'a>(v: &'a toml::Value) -> (r: Option<&'a Vec<toml::Value>>)
    ensures
        r is Some <==> value_model(*v) is List,
        r matches Some(arr) ==> value_model(*v) == TomlShape::List(
            arr@.map_values(|x: toml::Value| value_model(x)),
        ),
{
    v.as_array()
}

/// An optional string field of the table: absent, present with its
/// payload, or (outer `None`) present with the wrong shape — a decode
/// error.
pub open spec fn str_field_of(m: Map<Seq<char>, TomlShape>, key: Seq<char>) -> Option<
    Option<Seq<char>>,
> {
    if !m.contains_key(key) {
        Some(None)
    } else {
        match m[key] {
            TomlShape::Str(s) => Some(Some(s)),
            _ => None,
        }
    }
}

/// An optional boolean field of the table, as `str_field_of`.
pub open spec fn bool_field_of(m: Map<Seq<char>, TomlShape>, key: Seq<char>) -> Option<
    Option<bool>,
> {
    if !m.contains_key(key) {
        Some(None)
    } else {
        match m[key] {
            TomlShape::Flag(b) => Some(Some(b)),
            _ => None,
        }
    }
}

/// Every element of the array is a string.
pub open spec fn all_strings(l: Seq<TomlShape>) -> bool {
    forall|i: int| 0 <= i < l.len() ==> l[i] is Str
}

/// The string payloads of an all-string array.
pub open spec fn str_payloads(l: Seq<TomlShape>) -> Seq<Seq<char>> {
    l.map_values(
        |x: TomlShape|
            match x {
                TomlShape::Str(s) => s,
                _ => Seq::empty(),
            },
    )
}

/// An optional string-array field of the table: absent, present with its
/// payloads, or (outer `None`) present but not an array of strings — a
/// decode error.
pub open spec fn list_field_of(m: Map<Seq<char>, TomlShape>, key: Seq<char>) -> Option<
    Option<Seq<Seq<char>>>,
> {
    if !m.contains_key(key) {
        Some(None)
    } else {
        match m[key] {
            TomlShape::List(l) => if all_strings(l) {
                Some(Some(str_payloads(l)))
            } else {
                None
            },
            _ => None,
        }
    }
}

/// The five fields of a front matter as the decoder yields them, each
/// present or absent.
pub struct FrontParts {
    pub title: Option<Seq<char>>,
    pub date: Option<Seq<char>>,
    pub summary: Option<Seq<char>>,
    pub tags: Option<Seq<Seq<char>>>,
    pub draft: Option<bool>,
}

/// What decoding a metadata block yields before normalization: nothing
/// when the block is not well-formed or any known field has the wrong
/// shape, else the five fields, each present or absent. Unknown fields
/// are ignored.
pub open spec fn decoded_front(block: Seq<char>) -> Option<FrontParts> {
    match toml_table_of(block) {
        None => None,
        Some(m) => match (
            str_field_of(m, "title"@),
            str_field_of(m, "date"@),
            str_field_of(m, "summary"@),
            list_field_of(m, "tags"@),
            bool_field_of(m, "draft"@),
        ) {
            (Some(title), Some(date), Some(summary), Some(tags), Some(draft)) => Some(
                FrontParts { title, date, summary, tags, draft },
            ),
            _ => None,
        },
    }
}

/// The whole decode succeeds: the block decodes with every known field
/// well-shaped, and the required fields — title, summary and the tag
/// array — are present.
pub open spec fn front_decode_ok(block: Seq<char>) -> bool {
    &&& decoded_front(block) is Some
    &&& decoded_front(block).unwrap().title is Some
    &&& decoded_front(block).unwrap().summary is Some
    &&& decoded_front(block).unwrap().tags is Some
}

/// The view of an optional string.
pub open spec fn opt_str_view(o: Option<String>) -> Option<Seq<char>> {
    match o {
        Some(s) => Some(s@),
        None => None,
    }
}

/// The views of an optional string vector.
pub open spec fn opt_vec_view(o: Option<Vec<String>>) -> Option<Seq<Seq<char>>> {
    match o {
        Some(v) => Some(v@.map_values(|s: String| s@)),
        None => None,
    }
}

/// The tag sequence after normalization, over views: an empty sequence
/// becomes the single default tag, any other sequence is kept as it is.
pub open spec fn tags_defaulted_view(input: Seq<Seq<char>>, output: Seq<String>) -> bool {
    if input.len() == 0 {
        output.len() == 1 && output[0]@ == "misc"@
    } else {
        output.map_values(|s: String| s@) == input
    }
}

/// The front matter carries exactly the decoded fields: title and summary
/// verbatim, date and draft as decoded (absent stays absent), and the tag
/// sequence normalized.
pub open spec fn front_from_parts(fm: FrontMatter, p: FrontParts) -> bool {
    &&& p.title matches Some(t) && fm.title@ == t
    &&& p.summary matches Some(s) && fm.summary@ == s
    &&& opt_str_view(fm.date) == p.date
    &&& fm.draft == p.draft
    &&& p.tags matches Some(tg) && tags_defaulted_view(tg, fm.tags@)
}

/// An absent optional field decodes to nothing; a present field of the
/// wrong shape is a metadata error.
fn get_string_field(t: &toml::Table, key: &str) -> (r: Result<Option<String>, PostError>)
    ensures
        r is Err <==> str_field_of(table_model(*t), key@) is None,
        r matches Ok(o) ==> Some(opt_str_view(o)) == str_field_of(table_model(*t), key@),
        r matches Err(e) ==> e == PostError::BadMetadata,
{
    match table_get(t, key) {
        None => Ok(None),
        Some(v) => match value_as_string(v) {
            Some(s) => Ok(Some(s)),
            None => Err(PostError::BadMetadata),
        },
    }
}

/// See `get_string_field`; the draft flag is boolean.
fn get_bool_field(t: &toml::Table, key: &str) -> (r: Result<Option<bool>, PostError>)
    ensures
        r is Err <==> bool_field_of(table_model(*t), key@) is None,
        r matches Ok(o) ==> Some(o) == bool_field_of(table_model(*t), key@),
        r matches Err(e) ==> e == PostError::BadMetadata,
{
    match table_get(t, key) {
        None => Ok(None),
        Some(v) => match value_as_bool(v) {
            Some(b) => Ok(Some(b)),
            None => Err(PostError::BadMetadata),
        },
    }
}

/// The tag field must be an array of strings when present; an array with
/// an element of any other shape is a metadata error.
fn get_tags_field(t: &toml::Table, key: &str) -> (r: Result<Option<Vec<String>>, PostError>)
    ensures
        r is Err <==> list_field_of(table_model(*t), key@) is None,
        r matches Ok(o) ==> Some(opt_vec_view(o)) == list_field_of(table_model(*t), key@),
        r matches Err(e) ==> e == PostError::BadMetadata,
{
    match table_get(t, key) {
        None => Ok(None),
        Some(v) => match value_as_array(v) {
            None => Err(PostError::BadMetadata),
            Some(arr) => {
                let ghost l = arr@.map_values(|x: toml::Value| value_model(x));
                let mut out: Vec<String> = Vec::new();
                let mut i: usize = 0;
                while i < arr.len()
                    invariant
                        i <= arr@.len(),
                        l == arr@.map_values(|x: toml::Value| value_model(x)),
                        value_model(*v) == TomlShape::List(l),
                        table_model(*t).contains_key(key@),
                        table_model(*t)[key@] == value_model(*v),
                        out@.len() == i,
                        forall|j: int|
                            #![trigger l[j]]
                            0 <= j < i ==> (l[j] matches TomlShape::Str(s) && out@[j]@ == s),
                    decreases arr@.len() - i,
                {
                    match value_as_string(&arr[i]) {
                        Some(s) => {
                            proof {
                                assert(l[i as int] == value_model(arr@[i as int]));
                            }
                            out.push(s);
                        },
                        None => {
                            proof {
                                assert(l[i as int] == value_model(arr@[i as int]));
                                assert(!(l[i as int] is Str));
                                assert(!all_strings(l));
                            }
                            return Err(PostError::BadMetadata);
                        },
                    }
                    i = i + 1;
                }
                proof {
                    assert(all_strings(l));
                    assert(str_payloads(l) =~= out@.map_values(|s: String| s@));
                }
                Ok(Some(out))
            },
        },
    }
}

/// The tag sequence after normalization: an empty sequence becomes the
/// single default tag, any other sequence is kept as it is.
pub open spec fn tags_defaulted(input: Seq<String>, output: Seq<String>) -> bool {
    if input.len() == 0 {
        output.len() == 1 && output[0]@ == "misc"@
    } else {
        output == input
    }
}

/// Assembles a front matter from decoded fields. Title, summary and the tag
/// array are required: the result is a metadata error exactly when one of
/// them is absent. An empty tag array is normalized to the default tag, so
/// every front matter built here carries at least one tag.
pub fn build_front_matter(
    title: Option<String>,
    date: Option<String>,
    summary: Option<String>,
    tags: Option<Vec<String>>,
    draft: Option<bool>,
) -> (r: Result<FrontMatter, PostError>)
    ensures
        r is Ok <==> (title is Some && summary is Some && tags is Some),
        r matches Ok(fm) ==> {
            &&& fm.title == title.unwrap()
            &&& fm.summary == summary.unwrap()
            &&& fm.date == date
            &&& fm.draft == draft
            &&& tags_defaulted(tags.unwrap()@, fm.tags@)
            &&& fm.wf()
        },
        r matches Err(e) ==> e == PostError::BadMetadata,
{
    match (title, summary, tags) {
        (Some(title), Some(summary), Some(mut tags)) => {
            if tags.len() == 0 {
                tags.push("misc".to_owned());
            }
            Ok(FrontMatter { date, title, summary, tags, draft })
        },
        _ => Err(PostError::BadMetadata),
    }
}

/// Decodes a metadata block into a front matter. Success comes exactly
/// when the block decodes with title, summary and the tag array present
/// and every known field well-shaped; unknown fields are ignored; the
/// decoded fields are carried over verbatim, with an empty tag sequence
/// normalized to the default tag.
pub fn parse_front_matter(block: &str) -> (r: Result<FrontMatter, PostError>)
    ensures
        r is Ok <==> front_decode_ok(block@),
        r matches Ok(fm) ==> front_from_parts(fm, decoded_front(block@).unwrap()) && fm.wf(),
        r matches Err(e) ==> e == PostError::BadMetadata,
{
    let table = match parse_toml_table(block) {
        Ok(tb) => tb,
        Err(_) => {
            return Err(PostError::BadMetadata);
        },
    };
    let title = match get_string_field(&table, "title") {
        Ok(v) => v,
        Err(e) => {
            return Err(e);
        },
    };
    let date = match get_string_field(&table, "date") {
        Ok(v) => v,
        Err(e) => {
            return Err(e);
        },
    };
    let summary = match get_string_field(&table, "summary") {
        Ok(v) => v,
        Err(e) => {
            return Err(e);
        },
    };
    let tags = match get_tags_field(&table, "tags") {
        Ok(v) => v,
        Err(e) => {
            return Err(e);
        },
    };
    let draft = match get_bool_field(&table, "draft") {
        Ok(v) => v,
        Err(e) => {
            return Err(e);
        },
    };
    let r = build_front_matter(title, date, summary, tags, draft);
    proof {
        let p = decoded_front(block@).unwrap();
        if r is Ok {
            let fm = r.unwrap();
            assert(fm.tags@.map_values(|s: String| s@) =~= p.tags.unwrap() || p.tags.unwrap().len()
                == 0);
            if p.tags.unwrap().len() != 0 {
                assert(fm.tags@ == tags.unwrap()@);
                assert(fm.tags@.map_values(|s: String| s@) =~= p.tags.unwrap());
            }
        }
    }
    r
}

} // verus!
