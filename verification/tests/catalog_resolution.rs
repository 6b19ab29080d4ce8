//! Catalog parsing and location resolution: exact identifiers, in order; a
//! missing location is a soft failure; resolution is pure.

use syres::catalog::{resolve_space_ids, space_name_pairs, Catalog, SpaceTag, Venue};
use syres::errors::SessionError;
use syres::json::{decode_response, parse_catalog};

const CATALOG_TEXT: &str =
    r#"{"venue":[{"spacePresentation":{"spaceTags":[{"name":"A","spaceIds":[1,2,3]}]}}]}"#;

fn strings(v: &[&str]) -> Vec<Vec<u8>> {
    v.iter().map(|s| s.as_bytes().to_vec()).collect()
}

#[test]
fn resolves_matching_tag_in_order() {
    let catalog = parse_catalog(CATALOG_TEXT.as_bytes()).unwrap();
    let ids = resolve_space_ids(&catalog, b"A");
    assert_eq!(ids, strings(&["1", "2", "3"]));
}

#[test]
fn missing_location_resolves_to_empty_not_error() {
    let catalog = parse_catalog(CATALOG_TEXT.as_bytes()).unwrap();
    let ids = resolve_space_ids(&catalog, b"B");
    assert_eq!(ids, Vec::<Vec<u8>>::new());
}

#[test]
fn resolution_is_idempotent() {
    let catalog = parse_catalog(CATALOG_TEXT.as_bytes()).unwrap();
    let first = resolve_space_ids(&catalog, b"A");
    let second = resolve_space_ids(&catalog, b"A");
    assert_eq!(first, second);
}

#[test]
fn first_matching_tag_wins() {
    let catalog = Catalog {
        venues: vec![Venue {
            space_tags: vec![
                SpaceTag { name: b"A".to_vec(), space_ids: vec![7] },
                SpaceTag { name: b"A".to_vec(), space_ids: vec![8] },
            ],
        }],
        spaces: Vec::new(),
    };
    assert_eq!(resolve_space_ids(&catalog, b"A"), strings(&["7"]));
}

#[test]
fn only_first_venue_is_consulted() {
    let text = r#"{"venue":[{"spacePresentation":{"spaceTags":[]}},{"spacePresentation":{"spaceTags":[{"name":"A","spaceIds":[9]}]}}]}"#;
    let catalog = parse_catalog(text.as_bytes()).unwrap();
    assert_eq!(resolve_space_ids(&catalog, b"A"), Vec::<Vec<u8>>::new());
}

#[test]
fn match_is_exact_without_normalization() {
    let catalog = parse_catalog(CATALOG_TEXT.as_bytes()).unwrap();
    assert_eq!(resolve_space_ids(&catalog, b"a"), Vec::<Vec<u8>>::new());
    assert_eq!(resolve_space_ids(&catalog, b"A "), Vec::<Vec<u8>>::new());
}

#[test]
fn tolerates_absent_venue_shape() {
    let catalog = parse_catalog(br#"{"spaces":[{"id":"4","name":"D"}]}"#).unwrap();
    assert_eq!(resolve_space_ids(&catalog, b"D"), Vec::<Vec<u8>>::new());
    let pairs = space_name_pairs(&catalog);
    assert_eq!(pairs, vec![(b"4".to_vec(), b"D".to_vec())]);
}

#[test]
fn tolerates_absent_spaces_shape() {
    let catalog = parse_catalog(CATALOG_TEXT.as_bytes()).unwrap();
    assert_eq!(space_name_pairs(&catalog), Vec::<(Vec<u8>, Vec<u8>)>::new());
}

#[test]
fn skips_space_id_entries_that_are_not_plain_integers() {
    let text = r#"{"venue":[{"spacePresentation":{"spaceTags":[
        {"name":"A","spaceIds":[10,"x",2.5,-3,11]}]}}]}"#;
    let catalog = parse_catalog(text.as_bytes()).unwrap();
    assert_eq!(resolve_space_ids(&catalog, b"A"), strings(&["10", "11"]));
}

#[test]
fn formats_large_identifiers_exactly() {
    let catalog = Catalog {
        venues: vec![Venue {
            space_tags: vec![SpaceTag {
                name: b"A".to_vec(),
                space_ids: vec![0, 42, u64::MAX],
            }],
        }],
        spaces: Vec::new(),
    };
    assert_eq!(
        resolve_space_ids(&catalog, b"A"),
        strings(&["0", "42", "18446744073709551615"]),
    );
}

#[test]
fn invalid_json_is_the_decode_error() {
    assert!(matches!(parse_catalog(b"{not json"), Err(SessionError::Decode)));
    assert!(matches!(
        decode_response(200, b"<html></html>"),
        Err(SessionError::Decode)
    ));
}

#[test]
fn non_success_status_is_its_own_error() {
    assert!(matches!(
        decode_response(500, CATALOG_TEXT.as_bytes()),
        Err(SessionError::HttpStatus(500))
    ));
    assert!(matches!(
        decode_response(302, CATALOG_TEXT.as_bytes()),
        Err(SessionError::HttpStatus(302))
    ));
}

#[test]
fn success_status_with_valid_json_decodes() {
    let catalog = decode_response(200, CATALOG_TEXT.as_bytes()).unwrap();
    assert_eq!(resolve_space_ids(&catalog, b"A"), strings(&["1", "2", "3"]));
}
