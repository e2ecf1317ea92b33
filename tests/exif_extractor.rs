use photo_renamer::exif_extractor::{
    extract_datetime, extract_gps_coordinate, extract_gps_coordinates, extract_metadata,
    parse_exif_datetime, DateTimeSource, ExifFields, Ratio, SignedDms,
};
use photo_renamer::timestamp::Timestamp;

fn text(s: &str) -> Option<Vec<Vec<u8>>> {
    Some(vec![s.as_bytes().to_vec()])
}

fn dms(d: u32, m: u32, s: u32) -> Option<Vec<Ratio>> {
    Some(vec![
        Ratio { num: d, denom: 1 },
        Ratio { num: m, denom: 1 },
        Ratio { num: s, denom: 100 },
    ])
}

fn no_fields() -> ExifFields {
    ExifFields {
        date_time_original: None,
        date_time: None,
        date_time_digitized: None,
        gps_latitude: None,
        gps_latitude_ref: None,
        gps_longitude: None,
        gps_longitude_ref: None,
    }
}

#[test]
fn datetime_with_nul_padding_is_exact() {
    let t = parse_exif_datetime(&b"2023:01:05 08:30:00\0\0\0".to_vec());
    assert_eq!(
        t,
        Some(Timestamp { year: 2023, month: 1, day: 5, hour: 8, minute: 30, second: 0 })
    );
}

#[test]
fn datetime_without_padding_is_exact() {
    let t = parse_exif_datetime(&b"1999:12:31 23:59:59".to_vec());
    assert_eq!(
        t,
        Some(Timestamp { year: 1999, month: 12, day: 31, hour: 23, minute: 59, second: 59 })
    );
}

#[test]
fn malformed_datetimes_are_rejected() {
    assert_eq!(parse_exif_datetime(&b"2023-01-05 08:30:00".to_vec()), None);
    assert_eq!(parse_exif_datetime(&b"2023:1:5 8:30:00".to_vec()), None);
    assert_eq!(parse_exif_datetime(&b"2023:02:30 08:30:00".to_vec()), None);
    assert_eq!(parse_exif_datetime(&b"2023:01:05 24:00:00".to_vec()), None);
    assert_eq!(parse_exif_datetime(&b"".to_vec()), None);
}

#[test]
fn original_capture_time_wins() {
    let mut f = no_fields();
    f.date_time_original = text("2020:05:06 07:08:09");
    f.date_time = text("2021:01:01 00:00:00");
    assert_eq!(extract_datetime(&f).unwrap().year, 2020);
}

#[test]
fn malformed_tag_falls_through_to_next() {
    let mut f = no_fields();
    f.date_time_original = text("not a date");
    f.date_time = None;
    f.date_time_digitized = text("2018:03:04 05:06:07");
    let t = extract_datetime(&f).unwrap();
    assert_eq!((t.year, t.month, t.day, t.hour, t.minute, t.second), (2018, 3, 4, 5, 6, 7));
}

#[test]
fn south_reference_negates_latitude() {
    let north = extract_gps_coordinate(&dms(37, 46, 2964), &text("N"), b'N', b'S').unwrap();
    let south = extract_gps_coordinate(&dms(37, 46, 2964), &text("S"), b'N', b'S').unwrap();
    assert!(!north.negative);
    assert!(south.negative);
    assert_eq!(north.degrees, south.degrees);
    assert_eq!(north.minutes, south.minutes);
    assert_eq!(north.seconds, south.seconds);
}

#[test]
fn unknown_reference_voids_coordinate() {
    let mut f = no_fields();
    f.gps_latitude = dms(37, 46, 2964);
    f.gps_latitude_ref = text("X");
    f.gps_longitude = dms(122, 25, 984);
    f.gps_longitude_ref = text("W");
    assert_eq!(extract_gps_coordinates(&f), None);
}

#[test]
fn short_coordinate_voids_position() {
    let mut f = no_fields();
    f.gps_latitude = Some(vec![Ratio { num: 37, denom: 1 }]);
    f.gps_latitude_ref = text("N");
    f.gps_longitude = dms(122, 25, 984);
    f.gps_longitude_ref = text("W");
    assert_eq!(extract_gps_coordinates(&f), None);
}

#[test]
fn complete_position_is_kept() {
    let mut f = no_fields();
    f.gps_latitude = dms(37, 46, 2964);
    f.gps_latitude_ref = text("N");
    f.gps_longitude = dms(122, 25, 984);
    f.gps_longitude_ref = text("W");
    let g = extract_gps_coordinates(&f).unwrap();
    assert_eq!(
        g.latitude,
        SignedDms {
            negative: false,
            degrees: Ratio { num: 37, denom: 1 },
            minutes: Ratio { num: 46, denom: 1 },
            seconds: Ratio { num: 2964, denom: 100 },
        }
    );
    assert!(g.longitude.negative);
}

#[test]
fn metadata_source_follows_timestamp() {
    let m = extract_metadata(&no_fields());
    assert_eq!(m.datetime, None);
    assert_eq!(m.datetime_source, DateTimeSource::Unresolved);
    let mut f = no_fields();
    f.date_time = text("2022:02:02 02:02:02");
    let m = extract_metadata(&f);
    assert_eq!(m.datetime_source, DateTimeSource::Exif);
}
