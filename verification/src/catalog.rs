//! The remote catalog, modelled as plain values, and location resolution.
//!
//! The catalog mirrors what the booking endpoint's JSON document carries: a
//! `venue` collection whose first entry holds the `spaceTags` grouping, and an
//! optional flat `spaces` collection. Resolution finds the first tag whose
//! name equals the operator's location name, exactly, and hands back its space
//! identifiers as decimal strings in source order; no match is a soft failure
//! that yields an empty sequence.

use vstd::prelude::*;

use crate::bytes::{bytes_eq, dec_of, u64_to_dec};

verus! {

/// A named grouping of bookable space identifiers.
pub struct SpaceTag {
    pub name: Vec<u8>,
    pub space_ids: Vec<u64>,
}

/// One venue: the tag groupings of its space presentation.
pub struct Venue {
    pub space_tags: Vec<SpaceTag>,
}

/// One entry of the flat `spaces` collection.
pub struct Space {
    pub id: Vec<u8>,
    pub name: Vec<u8>,
}

/// The parsed remote catalog.
pub struct Catalog {
    pub venues: Vec<Venue>,
    pub spaces: Vec<Space>,
}

/// Mathematical model of a tag.
#[verifier::ext_equal]
pub struct SpaceTagModel {
    pub name: Seq<u8>,
    pub space_ids: Seq<u64>,
}

/// Mathematical model of a venue.
#[verifier::ext_equal]
pub struct VenueModel {
    pub space_tags: Seq<SpaceTagModel>,
}

/// Mathematical model of a flat space entry.
#[verifier::ext_equal]
pub struct SpaceModel {
    pub id: Seq<u8>,
    pub name: Seq<u8>,
}

/// Mathematical model of the catalog.
#[verifier::ext_equal]
pub struct CatalogModel {
    pub venues: Seq<VenueModel>,
    pub spaces: Seq<SpaceModel>,
}

impl View for SpaceTag {
    type V = SpaceTagModel;

    open spec fn view(&self) -> SpaceTagModel {
        SpaceTagModel { name: self.name@, space_ids: self.space_ids@ }
    }
}

impl View for Venue {
    type V = VenueModel;

    open spec fn view(&self) -> VenueModel {
        VenueModel {
            space_tags: Seq::new(self.space_tags@.len(), |i: int| self.space_tags@[i]@),
        }
    }
}

impl View for Space {
    type V = SpaceModel;

    open spec fn view(&self) -> SpaceModel {
        SpaceModel { id: self.id@, name: self.name@ }
    }
}

impl View for Catalog {
    type V = CatalogModel;

    open spec fn view(&self) -> CatalogModel {
        CatalogModel {
            venues: Seq::new(self.venues@.len(), |i: int| self.venues@[i]@),
            spaces: Seq::new(self.spaces@.len(), |i: int| self.spaces@[i]@),
        }
    }
}

/// Index of the first tag at or after `from` whose name equals `name`.
pub open spec fn first_tag_from(tags: Seq<SpaceTagModel>, name: Seq<u8>, from: int) -> Option<int>
    decreases tags.len() - from,
{
    if from < 0 {
        first_tag_from(tags, name, 0)
    } else if from >= tags.len() {
        None
    } else if tags[from].name == name {
        Some(from)
    } else {
        first_tag_from(tags, name, from + 1)
    }
}

/// The identifiers of a tag, as decimal strings, in source order.
pub open spec fn dec_strings_of(ids: Seq<u64>) -> Seq<Seq<u8>> {
    ids.map_values(|v: u64| dec_of(v as nat))
}

/// What resolution returns: the decimal identifiers of the first matching tag
/// of the first venue, or the empty sequence when no tag matches (or the
/// catalog has no venue).
pub open spec fn resolve_spec(c: CatalogModel, name: Seq<u8>) -> Seq<Seq<u8>> {
    if c.venues.len() == 0 {
        Seq::empty()
    } else {
        match first_tag_from(c.venues[0].space_tags, name, 0) {
            None => Seq::empty(),
            Some(i) => dec_strings_of(c.venues[0].space_tags[i].space_ids),
        }
    }
}

/// Converts a tag's identifiers to decimal strings, preserving order.
fn ids_to_strings(ids: &Vec<u64>) -> (r: Vec<Vec<u8>>)
    ensures
        r.deep_view() == dec_strings_of(ids@),
{
    let mut out: Vec<Vec<u8>> = Vec::new();
    let mut k: usize = 0;
    while k < ids.len()
        invariant
            k <= ids.len(),
            out@.len() == k,
            forall|i: int| 0 <= i < k ==> out@[i]@ == dec_of(ids@[i] as nat),
        decreases ids.len() - k,
    {
        out.push(u64_to_dec(ids[k]));
        k = k + 1;
    }
    proof {
        assert forall|i: int| 0 <= i < out@.len() implies out.deep_view()[i] == dec_strings_of(
            ids@,
        )[i] by {
            assert(out.deep_view()[i] == out@[i].deep_view());
            assert(out@[i].deep_view() =~= out@[i]@);
        }
        assert(out.deep_view() =~= dec_strings_of(ids@));
    }
    out
}

/// Resolves a location name to its space identifiers, per `resolve_spec`:
/// the first `spaceTags` entry of the first venue whose name matches exactly,
/// its identifiers converted to decimal strings in source order; the empty
/// sequence — not an error — when nothing matches.
pub fn resolve_space_ids(catalog: &Catalog, location_name: &[u8]) -> (r: Vec<Vec<u8>>)
    ensures
        r.deep_view() == resolve_spec(catalog@, location_name@),
{
    if catalog.venues.len() == 0 {
        let out: Vec<Vec<u8>> = Vec::new();
        assert(out.deep_view() =~= resolve_spec(catalog@, location_name@));
        return out;
    }
    let tags: &Vec<SpaceTag> = &catalog.venues[0].space_tags;
    let ghost tags_model: Seq<SpaceTagModel> = catalog@.venues[0].space_tags;
    assert(tags_model.len() == tags@.len());
    assert(forall|i: int| 0 <= i < tags@.len() ==> tags_model[i] == tags@[i]@);
    let mut ti: usize = 0;
    while ti < tags.len()
        invariant
            ti <= tags.len(),
            tags_model.len() == tags@.len(),
            forall|i: int| 0 <= i < tags@.len() ==> tags_model[i] == tags@[i]@,
            first_tag_from(tags_model, location_name@, 0) == first_tag_from(
                tags_model,
                location_name@,
                ti as int,
            ),
            catalog@.venues.len() > 0,
            catalog@.venues[0].space_tags == tags_model,
        decreases tags.len() - ti,
    {
        if bytes_eq(tags[ti].name.as_slice(), location_name) {
            assert(first_tag_from(tags_model, location_name@, ti as int) == Some(ti as int));
            return ids_to_strings(&tags[ti].space_ids);
        }
        assert(first_tag_from(tags_model, location_name@, ti as int) == first_tag_from(
            tags_model,
            location_name@,
            ti + 1,
        ));
        ti = ti + 1;
    }
    assert(first_tag_from(tags_model, location_name@, ti as int) is None);
    let out: Vec<Vec<u8>> = Vec::new();
    assert(out.deep_view() =~= resolve_spec(catalog@, location_name@));
    out
}

/// Resolution is a pure transformation: equal catalog and name always give
/// equal results, so re-running it changes nothing.
pub proof fn lemma_resolve_idempotent(
    c: CatalogModel,
    name: Seq<u8>,
    r1: Seq<Seq<u8>>,
    r2: Seq<Seq<u8>>,
)
    requires
        r1 == resolve_spec(c, name),
        r2 == resolve_spec(c, name),
    ensures
        r1 == r2,
{
}

/// The flat `spaces` collection as identifier/name pairs, in source order.
pub fn space_name_pairs(catalog: &Catalog) -> (r: Vec<(Vec<u8>, Vec<u8>)>)
    ensures
        r@.len() == catalog@.spaces.len(),
        forall|i: int|
            0 <= i < r@.len() ==> r@[i].0@ == catalog@.spaces[i].id && r@[i].1@
                == catalog@.spaces[i].name,
{
    let mut out: Vec<(Vec<u8>, Vec<u8>)> = Vec::new();
    let mut k: usize = 0;
    while k < catalog.spaces.len()
        invariant
            k <= catalog.spaces.len(),
            out@.len() == k,
            catalog@.spaces.len() == catalog.spaces@.len(),
            forall|i: int|
                0 <= i < k ==> out@[i].0@ == catalog@.spaces[i].id && out@[i].1@
                    == catalog@.spaces[i].name,
        decreases catalog.spaces.len() - k,
    {
        let id = crate::bytes::subrange_vec(
            catalog.spaces[k].id.as_slice(),
            0,
            catalog.spaces[k].id.len(),
        );
        let name = crate::bytes::subrange_vec(
            catalog.spaces[k].name.as_slice(),
            0,
            catalog.spaces[k].name.len(),
        );
        assert(id@ =~= catalog@.spaces[k as int].id);
        assert(name@ =~= catalog@.spaces[k as int].name);
        out.push((id, name));
        k = k + 1;
    }
    out
}

} // verus!
