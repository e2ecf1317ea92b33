use photo_renamer::exif_extractor::{
    DateTimeSource, ExifFields, GpsCoordinates, PhotoMetadata, Ratio, SignedDms,
};
use photo_renamer::geocoding::{location_label, Address};
use photo_renamer::renamer::{
    candidate_name, ensure_unique_filename, generate_new_filename, is_image_file, plan_rename,
    resolve_metadata, RenameError, RenameOutcome, SkipReason,
};
use photo_renamer::timestamp::Timestamp;

fn no_fields() -> ExifFields {
    ExifFields {
        date_time_original: None,
        date_time: None,
        date_time_digitized: None,
        gps_latitude: None,
        gps_latitude_ref: None,
        gps_longitude: None,
        gps_longitude_ref: None,
    }
}

fn axis(negative: bool, d: u32) -> SignedDms {
    SignedDms {
        negative,
        degrees: Ratio { num: d, denom: 1 },
        minutes: Ratio { num: 0, denom: 1 },
        seconds: Ratio { num: 0, denom: 1 },
    }
}

fn names(v: &[&str]) -> Vec<String> {
    v.iter().map(|s| s.to_string()).collect()
}

#[test]
fn image_extensions_in_any_case() {
    assert!(is_image_file("a/b/photo.JPG"));
    assert!(is_image_file("x.jpeg"));
    assert!(is_image_file("x.Nef"));
    assert!(is_image_file("x.dng"));
    assert!(!is_image_file("x.png"));
    assert!(!is_image_file("noextension"));
    assert!(!is_image_file(".jpg"));
}

#[test]
fn stamp_alone_without_position() {
    let m = PhotoMetadata {
        datetime: Some(Timestamp { year: 2024, month: 8, day: 27, hour: 12, minute: 0, second: 0 }),
        gps: None,
        datetime_source: DateTimeSource::Filename,
    };
    assert_eq!(generate_new_filename(&m, None), Some("20240827120000".to_string()));
}

#[test]
fn no_timestamp_no_name() {
    let m = PhotoMetadata { datetime: None, gps: None, datetime_source: DateTimeSource::Unresolved };
    assert_eq!(generate_new_filename(&m, Some("x".to_string())), None);
}

#[test]
fn small_years_are_zero_padded() {
    let m = PhotoMetadata {
        datetime: Some(Timestamp { year: 987, month: 1, day: 2, hour: 3, minute: 4, second: 5 }),
        gps: None,
        datetime_source: DateTimeSource::Exif,
    };
    assert_eq!(generate_new_filename(&m, None), Some("09870102030405".to_string()));
}

#[test]
fn free_name_is_kept() {
    let r = ensure_unique_filename("20240827120000", &Some("jpg".to_string()), &names(&["other.jpg"]));
    assert_eq!(r, Ok("20240827120000.jpg".to_string()));
}

#[test]
fn nth_variant_after_n_taken() {
    let taken = names(&["s.jpg", "s-1.jpg", "s-2.jpg"]);
    assert_eq!(ensure_unique_filename("s", &Some("jpg".to_string()), &taken), Ok("s-3.jpg".to_string()));
    let taken = names(&["s"]);
    assert_eq!(ensure_unique_filename("s", &None, &taken), Ok("s-1".to_string()));
}

#[test]
fn too_many_collisions_is_an_error() {
    let ext = Some("jpg".to_string());
    let mut taken = Vec::new();
    for k in 0..1000u32 {
        taken.push(candidate_name("s", &ext, k));
    }
    assert_eq!(taken[999], "s-999.jpg");
    assert_eq!(ensure_unique_filename("s", &ext, &taken), Err(RenameError::TooManyCollisions));
    taken.pop();
    assert_eq!(ensure_unique_filename("s", &ext, &taken), Ok("s-999.jpg".to_string()));
}

#[test]
fn scenario_heuristic_fallback_renames_to_noon() {
    let path = "/photos/IMG_20240827_123456.jpg";
    let m = resolve_metadata(None, path);
    assert_eq!(m.datetime_source, DateTimeSource::Filename);
    assert_eq!(m.gps, None);
    let out = plan_rename("IMG_20240827_123456.jpg", &m, None, &names(&["IMG_20240827_123456.jpg"]));
    match out {
        RenameOutcome::Renamed(n) => assert_eq!(n, "20240827120000.jpg"),
        other => panic!("unexpected outcome {:?}", other),
    }
}

#[test]
fn scenario_tags_and_place_name() {
    let mut f = no_fields();
    f.date_time_original = Some(vec![b"2023:01:05 08:30:00\0".to_vec()]);
    f.gps_latitude = Some(vec![Ratio { num: 37, denom: 1 }, Ratio { num: 46, denom: 1 }, Ratio { num: 2964, denom: 100 }]);
    f.gps_latitude_ref = Some(vec![b"N".to_vec()]);
    f.gps_longitude = Some(vec![Ratio { num: 122, denom: 1 }, Ratio { num: 25, denom: 1 }, Ratio { num: 984, denom: 100 }]);
    f.gps_longitude_ref = Some(vec![b"W".to_vec()]);
    let m = resolve_metadata(Some(f), "DSC0001.jpg");
    assert_eq!(m.datetime_source, DateTimeSource::Exif);
    assert!(m.gps.is_some());
    let a = Address {
        city: Some("San Francisco".to_string()),
        town: None,
        village: None,
        municipality: None,
        county: None,
        state: Some("California".to_string()),
        country: Some("US".to_string()),
        country_code: None,
    };
    // The raw label, as composed from the address.
    let raw = photo_renamer::geocoding::extract_location_from_address(&a);
    assert_eq!(
        generate_new_filename(&m, Some(raw)),
        Some("20230105083000-San Francisco-California-US".to_string())
    );
    // The label a file name receives, with the space made safe.
    let label = location_label(&Some(a), "037.7749-122.4194".to_string());
    let out = plan_rename("DSC0001.jpg", &m, Some(label), &names(&["DSC0001.jpg"]));
    match out {
        RenameOutcome::Renamed(n) => assert_eq!(n, "20230105083000-San-Francisco-California-US.jpg"),
        other => panic!("unexpected outcome {:?}", other),
    }
}

#[test]
fn scenario_existing_target_gets_suffix() {
    let m = resolve_metadata(None, "IMG_20240827_000001.jpg");
    let existing = names(&["20240827120000.jpg", "IMG_20240827_000001.jpg"]);
    match plan_rename("IMG_20240827_000001.jpg", &m, None, &existing) {
        RenameOutcome::Renamed(n) => assert_eq!(n, "20240827120000-1.jpg"),
        other => panic!("unexpected outcome {:?}", other),
    }
}

#[test]
fn scenario_no_date_is_skipped() {
    let m = resolve_metadata(Some(no_fields()), "random_file.jpg");
    assert_eq!(m.datetime, None);
    assert_eq!(m.datetime_source, DateTimeSource::Unresolved);
    match plan_rename("random_file.jpg", &m, None, &names(&["random_file.jpg"])) {
        RenameOutcome::Skipped(r) => assert_eq!(r, SkipReason::NoTimestampResolved),
        other => panic!("unexpected outcome {:?}", other),
    }
}

#[test]
fn already_named_file_is_skipped() {
    let m = resolve_metadata(None, "20240827120000.jpg");
    match plan_rename("20240827120000.jpg", &m, None, &names(&["20240827120000.jpg"])) {
        RenameOutcome::Skipped(r) => assert_eq!(r, SkipReason::AlreadyNamedCorrectly),
        other => panic!("unexpected outcome {:?}", other),
    }
}

#[test]
fn non_image_is_skipped() {
    let m = resolve_metadata(None, "IMG_20240827.png");
    match plan_rename("IMG_20240827.png", &m, None, &names(&[])) {
        RenameOutcome::Skipped(r) => assert_eq!(r, SkipReason::NotAnImage),
        other => panic!("unexpected outcome {:?}", other),
    }
}

#[test]
fn position_adds_place_name() {
    let m = PhotoMetadata {
        datetime: Some(Timestamp { year: 2021, month: 6, day: 7, hour: 8, minute: 9, second: 10 }),
        gps: Some(GpsCoordinates { latitude: axis(true, 33), longitude: axis(false, 151) }),
        datetime_source: DateTimeSource::Exif,
    };
    assert_eq!(generate_new_filename(&m, Some("Sydney-Australia".to_string())), Some("20210607080910-Sydney-Australia".to_string()));
}
