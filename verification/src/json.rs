//! The JSON boundary: parsing the booking endpoint's document and reading the
//! catalog out of it.
//!
//! The document is parsed and navigated by serde_json behind trusted items.
//! Each trusted item's result carries a spec-level name — what the parse
//! yields, what a key lookup yields, and so on — all functions of their
//! arguments alone. The navigation into the library's own `Catalog` is then
//! verified against `catalog_model_of`, the same walk written over those
//! names: it tolerates either catalog shape being absent and skips entries
//! that do not carry what they should.

use vstd::prelude::*;

use crate::catalog::{
    Catalog, CatalogModel, Space, SpaceModel, SpaceTag, SpaceTagModel, Venue, VenueModel,
};
use crate::errors::SessionError;
use crate::session::is_success_status;

verus! {

#[verifier::external_type_specification]
#[verifier::external_body]
pub struct ExValue(serde_json::Value);

#[verifier::external_type_specification]
#[verifier::external_body]
pub struct ExJsonError(serde_json::Error);

/// The JSON value a byte text parses to, or `None` when serde_json rejects the
/// text; a function of the bytes alone.
pub uninterp spec fn json_value_of_text(text: Seq<u8>) -> Option<serde_json::Value>;

/// Whether the bytes parse to a JSON value.
pub open spec fn is_json_value_text(text: Seq<u8>) -> bool {
    json_value_of_text(text) is Some
}

/// The value under a string key, when the value is an object that holds it.
pub uninterp spec fn json_get_of(v: serde_json::Value, key: Seq<char>) -> Option<
    serde_json::Value,
>;

/// The elements of a value, when it is an array.
pub uninterp spec fn json_elems_of(v: serde_json::Value) -> Option<Seq<serde_json::Value>>;

/// The text of a value, when it is a string, as bytes.
pub uninterp spec fn json_str_of(v: serde_json::Value) -> Option<Seq<u8>>;

/// The integer of a value, when it is one that an `i64` holds.
pub uninterp spec fn json_i64_of(v: serde_json::Value) -> Option<i64>;

/// Relies on serde_json::from_slice: parses one JSON value out of the bytes,
/// succeeding exactly when the text is one the parser accepts.
#[verifier::external_body]
fn json_from_slice(text: &[u8]) -> (r: Result<serde_json::Value, serde_json::Error>)
    ensures
        match r {
            Ok(v) => json_value_of_text(text@) == Some(v),
            Err(_) => json_value_of_text(text@) is None,
        },
{
    serde_json::from_slice(text)
}

/// Relies on serde_json::Value::get with a string key: the value under the key
/// when `v` is an object that holds it.
#[verifier::external_body]
fn json_get<'a>(v: &'a serde_json::Value, key: &str) -> (r: Option<&'a serde_json::Value>)
    ensures
        match r {
            Some(x) => json_get_of(*v, key@) == Some(*x),
            None => json_get_of(*v, key@) is None,
        },
{
    v.get(key)
}

/// Relies on serde_json::Value::as_array: the elements when `v` is an array.
#[verifier::external_body]
fn json_as_array(v: &serde_json::Value) -> (r: Option<&Vec<serde_json::Value>>)
    ensures
        match r {
            Some(a) => json_elems_of(*v) == Some(a@),
            None => json_elems_of(*v) is None,
        },
{
    v.as_array()
}

/// Relies on serde_json::Value::as_str: the text when `v` is a string.
#[verifier::external_body]
fn json_as_str_bytes(v: &serde_json::Value) -> (r: Option<Vec<u8>>)
    ensures
        match r {
            Some(b) => json_str_of(*v) == Some(b@),
            None => json_str_of(*v) is None,
        },
{
    v.as_str().map(|s| s.as_bytes().to_vec())
}

/// Relies on serde_json::Value::as_i64: the integer when `v` is one that fits.
#[verifier::external_body]
fn json_as_i64(v: &serde_json::Value) -> (r: Option<i64>)
    ensures
        r == json_i64_of(*v),
{
    v.as_i64()
}

/// The identifiers a `spaceIds` array yields: every element that is a
/// non-negative integer, in order.
pub open spec fn ids_of_elems(elems: Seq<serde_json::Value>) -> Seq<u64>
    decreases elems.len(),
{
    if elems.len() == 0 {
        Seq::empty()
    } else {
        let rest = ids_of_elems(elems.drop_last());
        match json_i64_of(elems.last()) {
            Some(n) => if n >= 0 {
                rest.push(n as u64)
            } else {
                rest
            },
            None => rest,
        }
    }
}

/// The identifiers of one tag value: its `spaceIds` entries, or none when the
/// field is absent or not an array.
pub open spec fn tag_ids_of(v: serde_json::Value) -> Seq<u64> {
    match json_get_of(v, "spaceIds"@) {
        None => Seq::empty(),
        Some(x) => match json_elems_of(x) {
            None => Seq::empty(),
            Some(elems) => ids_of_elems(elems),
        },
    }
}

/// One `spaceTags` entry: its `name` and its identifiers; `None` — the entry
/// is skipped — when it has no string `name`.
pub open spec fn tag_model_of(v: serde_json::Value) -> Option<SpaceTagModel> {
    match json_get_of(v, "name"@) {
        None => None,
        Some(x) => match json_str_of(x) {
            None => None,
            Some(name) => Some(SpaceTagModel { name, space_ids: tag_ids_of(v) }),
        },
    }
}

/// The tags of a `spaceTags` array, in order, entries without a name skipped.
pub open spec fn tags_of_elems(elems: Seq<serde_json::Value>) -> Seq<SpaceTagModel>
    decreases elems.len(),
{
    if elems.len() == 0 {
        Seq::empty()
    } else {
        let rest = tags_of_elems(elems.drop_last());
        match tag_model_of(elems.last()) {
            Some(t) => rest.push(t),
            None => rest,
        }
    }
}

/// One venue value: the tags of its `spacePresentation.spaceTags`, or no tags
/// when either level is absent or not what it should be.
pub open spec fn venue_model_of(v: serde_json::Value) -> VenueModel {
    VenueModel {
        space_tags: match json_get_of(v, "spacePresentation"@) {
            None => Seq::empty(),
            Some(p) => match json_get_of(p, "spaceTags"@) {
                None => Seq::empty(),
                Some(t) => match json_elems_of(t) {
                    None => Seq::empty(),
                    Some(elems) => tags_of_elems(elems),
                },
            },
        },
    }
}

/// The venues of a `venue` array, in order.
pub open spec fn venues_of_elems(elems: Seq<serde_json::Value>) -> Seq<VenueModel>
    decreases elems.len(),
{
    if elems.len() == 0 {
        Seq::empty()
    } else {
        venues_of_elems(elems.drop_last()).push(venue_model_of(elems.last()))
    }
}

/// One flat `spaces` entry: its string `id` and `name`; `None` — the entry is
/// skipped — when either is absent or not a string.
pub open spec fn space_model_of(v: serde_json::Value) -> Option<SpaceModel> {
    match json_get_of(v, "id"@) {
        None => None,
        Some(x) => match json_str_of(x) {
            None => None,
            Some(id) => match json_get_of(v, "name"@) {
                None => None,
                Some(y) => match json_str_of(y) {
                    None => None,
                    Some(name) => Some(SpaceModel { id, name }),
                },
            },
        },
    }
}

/// The entries of a `spaces` array, in order, malformed ones skipped.
pub open spec fn spaces_of_elems(elems: Seq<serde_json::Value>) -> Seq<SpaceModel>
    decreases elems.len(),
{
    if elems.len() == 0 {
        Seq::empty()
    } else {
        let rest = spaces_of_elems(elems.drop_last());
        match space_model_of(elems.last()) {
            Some(s) => rest.push(s),
            None => rest,
        }
    }
}

/// The whole catalog a parsed document holds: the `venue` collection with its
/// nested tags, and the flat `spaces` collection; either shape may be absent
/// and yields its empty side.
pub open spec fn catalog_model_of(v: serde_json::Value) -> CatalogModel {
    CatalogModel {
        venues: match json_get_of(v, "venue"@) {
            None => Seq::empty(),
            Some(x) => match json_elems_of(x) {
                None => Seq::empty(),
                Some(elems) => venues_of_elems(elems),
            },
        },
        spaces: match json_get_of(v, "spaces"@) {
            None => Seq::empty(),
            Some(x) => match json_elems_of(x) {
                None => Seq::empty(),
                Some(elems) => spaces_of_elems(elems),
            },
        },
    }
}

/// Reads one `spaceTags` entry, as `tag_model_of` says.
fn tag_of_value(v: &serde_json::Value) -> (r: Option<SpaceTag>)
    ensures
        match r {
            Some(t) => tag_model_of(*v) == Some(t@),
            None => tag_model_of(*v) is None,
        },
{
    let name = match json_get(v, "name") {
        None => {
            return None;
        },
        Some(n) => match json_as_str_bytes(n) {
            None => {
                return None;
            },
            Some(b) => b,
        },
    };
    let mut space_ids: Vec<u64> = Vec::new();
    if let Some(ids_value) = json_get(v, "spaceIds") {
        if let Some(items) = json_as_array(ids_value) {
            let ghost elems = items@;
            let mut i: usize = 0;
            while i < items.len()
                invariant
                    i <= items@.len(),
                    elems == items@,
                    space_ids@ == ids_of_elems(elems.subrange(0, i as int)),
                decreases items@.len() - i,
            {
                let ghost prefix = elems.subrange(0, i as int);
                let ghost prefix1 = elems.subrange(0, i + 1 as int);
                proof {
                    assert(prefix1.drop_last() =~= prefix);
                    assert(prefix1.last() == elems[i as int]);
                }
                if let Some(n) = json_as_i64(&items[i]) {
                    if n >= 0 {
                        space_ids.push(n as u64);
                    }
                }
                assert(space_ids@ =~= ids_of_elems(prefix1));
                i = i + 1;
            }
            assert(elems.subrange(0, elems.len() as int) =~= elems);
        }
    }
    let tag = SpaceTag { name, space_ids };
    assert(tag@ =~~= tag_model_of(*v)->Some_0);
    Some(tag)
}

/// Reads one venue, as `venue_model_of` says.
fn venue_of_value(v: &serde_json::Value) -> (r: Venue)
    ensures
        r@ == venue_model_of(*v),
{
    let mut space_tags: Vec<SpaceTag> = Vec::new();
    if let Some(presentation) = json_get(v, "spacePresentation") {
        if let Some(tags_value) = json_get(presentation, "spaceTags") {
            if let Some(items) = json_as_array(tags_value) {
                let ghost elems = items@;
                let mut i: usize = 0;
                while i < items.len()
                    invariant
                        i <= items@.len(),
                        elems == items@,
                        Seq::new(space_tags@.len(), |t: int| space_tags@[t]@) == tags_of_elems(
                            elems.subrange(0, i as int),
                        ),
                    decreases items@.len() - i,
                {
                    let ghost prefix = elems.subrange(0, i as int);
                    let ghost prefix1 = elems.subrange(0, i + 1 as int);
                    proof {
                        assert(prefix1.drop_last() =~= prefix);
                        assert(prefix1.last() == elems[i as int]);
                    }
                    if let Some(tag) = tag_of_value(&items[i]) {
                        space_tags.push(tag);
                    }
                    assert(Seq::new(space_tags@.len(), |t: int| space_tags@[t]@) =~= tags_of_elems(
                        prefix1,
                    ));
                    i = i + 1;
                }
                assert(elems.subrange(0, elems.len() as int) =~= elems);
            }
        }
    }
    let venue = Venue { space_tags };
    assert(venue@ =~~= venue_model_of(*v));
    venue
}

/// Reads one flat `spaces` entry, as `space_model_of` says.
fn space_of_value(v: &serde_json::Value) -> (r: Option<Space>)
    ensures
        match r {
            Some(s) => space_model_of(*v) == Some(s@),
            None => space_model_of(*v) is None,
        },
{
    let id = match json_get(v, "id") {
        None => {
            return None;
        },
        Some(x) => match json_as_str_bytes(x) {
            None => {
                return None;
            },
            Some(b) => b,
        },
    };
    let name = match json_get(v, "name") {
        None => {
            return None;
        },
        Some(x) => match json_as_str_bytes(x) {
            None => {
                return None;
            },
            Some(b) => b,
        },
    };
    Some(Space { id, name })
}

/// Reads the whole catalog out of a parsed document, as `catalog_model_of`
/// says.
fn catalog_of_value(v: &serde_json::Value) -> (r: Catalog)
    ensures
        r@ == catalog_model_of(*v),
{
    let mut venues: Vec<Venue> = Vec::new();
    if let Some(venue_value) = json_get(v, "venue") {
        if let Some(items) = json_as_array(venue_value) {
            let ghost elems = items@;
            let mut i: usize = 0;
            while i < items.len()
                invariant
                    i <= items@.len(),
                    elems == items@,
                    Seq::new(venues@.len(), |t: int| venues@[t]@) == venues_of_elems(
                        elems.subrange(0, i as int),
                    ),
                decreases items@.len() - i,
            {
                let ghost prefix = elems.subrange(0, i as int);
                let ghost prefix1 = elems.subrange(0, i + 1 as int);
                proof {
                    assert(prefix1.drop_last() =~= prefix);
                    assert(prefix1.last() == elems[i as int]);
                }
                venues.push(venue_of_value(&items[i]));
                assert(Seq::new(venues@.len(), |t: int| venues@[t]@) =~= venues_of_elems(prefix1));
                i = i + 1;
            }
            assert(elems.subrange(0, elems.len() as int) =~= elems);
        }
    }
    let mut spaces: Vec<Space> = Vec::new();
    if let Some(spaces_value) = json_get(v, "spaces") {
        if let Some(items) = json_as_array(spaces_value) {
            let ghost elems = items@;
            let mut i: usize = 0;
            while i < items.len()
                invariant
                    i <= items@.len(),
                    elems == items@,
                    Seq::new(spaces@.len(), |t: int| spaces@[t]@) == spaces_of_elems(
                        elems.subrange(0, i as int),
                    ),
                decreases items@.len() - i,
            {
                let ghost prefix = elems.subrange(0, i as int);
                let ghost prefix1 = elems.subrange(0, i + 1 as int);
                proof {
                    assert(prefix1.drop_last() =~= prefix);
                    assert(prefix1.last() == elems[i as int]);
                }
                if let Some(s) = space_of_value(&items[i]) {
                    spaces.push(s);
                }
                assert(Seq::new(spaces@.len(), |t: int| spaces@[t]@) =~= spaces_of_elems(prefix1));
                i = i + 1;
            }
            assert(elems.subrange(0, elems.len() as int) =~= elems);
        }
    }
    let catalog = Catalog { venues, spaces };
    assert(catalog@ =~~= catalog_model_of(*v));
    catalog
}

/// Parses the booking endpoint's body into the catalog. Succeeds exactly on
/// text the parser accepts, and the catalog is then exactly what the document
/// holds; anything else is the decode error.
pub fn parse_catalog(body: &[u8]) -> (r: Result<Catalog, SessionError>)
    ensures
        r is Ok <==> is_json_value_text(body@),
        r matches Ok(c) ==> c@ == catalog_model_of(json_value_of_text(body@)->Some_0),
        r is Err ==> r == Result::<Catalog, SessionError>::Err(SessionError::Decode),
{
    match json_from_slice(body) {
        Err(_) => Err(SessionError::Decode),
        Ok(v) => Ok(catalog_of_value(&v)),
    }
}

/// The compute half of an authenticated JSON fetch: holds the response's
/// status to success, then parses its body into the catalog — exactly the
/// document's catalog. Each failure is its own error, exactly: a non-success
/// status is that status's error, a body the parser rejects is the decode
/// error.
pub fn decode_response(status: u16, body: &[u8]) -> (r: Result<Catalog, SessionError>)
    ensures
        r is Ok <==> is_success_status(status) && is_json_value_text(body@),
        r matches Ok(c) ==> c@ == catalog_model_of(json_value_of_text(body@)->Some_0),
        r is Err ==> r == Result::<Catalog, SessionError>::Err(
            if !is_success_status(status) {
                SessionError::HttpStatus(status)
            } else {
                SessionError::Decode
            },
        ),
{
    match crate::session::check_status(status) {
        Err(e) => Err(e),
        Ok(()) => parse_catalog(body),
    }
}

} // verus!
