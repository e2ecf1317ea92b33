use photo_renamer::geocoding::{
    extract_location_from_address, location_label, sanitize_filename, Address,
};

fn address(city: Option<&str>, state: Option<&str>, country: Option<&str>) -> Address {
    Address {
        city: city.map(|s| s.to_string()),
        town: None,
        village: None,
        municipality: None,
        county: None,
        state: state.map(|s| s.to_string()),
        country: country.map(|s| s.to_string()),
        country_code: None,
    }
}

#[test]
fn all_three_parts_are_joined() {
    let a = address(Some("San Francisco"), Some("California"), Some("US"));
    assert_eq!(extract_location_from_address(&a), "San Francisco-California-US");
}

#[test]
fn region_equal_to_city_is_dropped_before_a_country() {
    let a = address(Some("Berlin"), Some("Berlin"), Some("Germany"));
    assert_eq!(extract_location_from_address(&a), "Berlin-Germany");
    let b = address(Some("Berlin"), Some("Berlin"), None);
    assert_eq!(extract_location_from_address(&b), "Berlin-Berlin");
}

#[test]
fn two_parts_skip_the_absent_one() {
    assert_eq!(extract_location_from_address(&address(None, Some("Bavaria"), Some("Germany"))), "Bavaria-Germany");
    assert_eq!(extract_location_from_address(&address(Some("Lyon"), None, Some("France"))), "Lyon-France");
    assert_eq!(extract_location_from_address(&address(Some("Lyon"), Some("Rhone"), None)), "Lyon-Rhone");
}

#[test]
fn single_part_and_none() {
    assert_eq!(extract_location_from_address(&address(None, None, Some("Chile"))), "Chile");
    assert_eq!(extract_location_from_address(&address(None, Some("Texas"), None)), "Texas");
    assert_eq!(extract_location_from_address(&address(None, None, None)), "");
}

#[test]
fn town_and_county_stand_in() {
    let mut a = address(None, None, Some("UK"));
    a.village = Some("Ham".to_string());
    a.town = Some("Kew".to_string());
    a.county = Some("Surrey".to_string());
    assert_eq!(extract_location_from_address(&a), "Kew-Surrey-UK");
}

#[test]
fn sanitizer_replaces_and_collapses() {
    assert_eq!(sanitize_filename("a b/c\\d:e*f?g\"h<i>j|k"), "a-b-c-d-e-f-g-h-i-j-k");
    assert_eq!(sanitize_filename("  São  Paulo // BR "), "São-Paulo-BR");
    assert_eq!(sanitize_filename("a---b"), "a-b");
    assert_eq!(sanitize_filename("-/-"), "");
    assert_eq!(sanitize_filename(""), "");
}

#[test]
fn sanitizer_is_idempotent() {
    for s in ["a---b", " x : y ", "São Paulo", "--a--b--", "plain"] {
        let once = sanitize_filename(s);
        assert_eq!(sanitize_filename(&once), once);
        assert!(!once.contains([' ', '/', '\\', ':', '*', '?', '"', '<', '>', '|']));
    }
}

#[test]
fn label_is_sanitized_or_falls_back() {
    let a = address(Some("San Francisco"), Some("California"), Some("US"));
    assert_eq!(location_label(&Some(a), "037.7749-122.4194".to_string()), "San-Francisco-California-US");
    let empty = address(None, None, None);
    assert_eq!(location_label(&Some(empty), "037.7749-122.4194".to_string()), "037.7749-122.4194");
    assert_eq!(location_label(&None, "fallback".to_string()), "fallback");
    let only_marks = address(Some("//"), None, None);
    assert_eq!(location_label(&Some(only_marks), "fb".to_string()), "fb");
}
