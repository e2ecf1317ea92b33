use vstd::prelude::*;

use crate::digits::{bytes_value, digit_bytes, read_bytes_number};
use crate::timestamp::{Timestamp, is_valid_date, is_valid_time};

verus! {

/// An unsigned rational as stored in an image's tag container.
#[derive(Clone, Copy, Debug, PartialEq, Eq, Structural)]
pub struct Ratio {
    pub num: u32,
    pub denom: u32,
}

/// One axis of a position: degrees, minutes and seconds, and whether the
/// reference letter points south or west.
#[derive(Clone, Copy, Debug, PartialEq, Eq, Structural)]
pub struct SignedDms {
    pub negative: bool,
    pub degrees: Ratio,
    pub minutes: Ratio,
    pub seconds: Ratio,
}

#[derive(Clone, Copy, Debug, PartialEq, Eq, Structural)]
pub struct GpsCoordinates {
    pub latitude: SignedDms,
    pub longitude: SignedDms,
}

#[derive(Clone, Copy, Debug, PartialEq, Eq, Structural)]
pub enum DateTimeSource {
    Exif,
    Filename,
    Unresolved,
}

#[derive(Clone, Copy, Debug, PartialEq, Eq, Structural)]
pub struct PhotoMetadata {
    pub datetime: Option<Timestamp>,
    pub gps: Option<GpsCoordinates>,
    pub datetime_source: DateTimeSource,
}

/// The raw values of the tags this library reads from an image's container.
/// A text tag holds its strings as bytes; a tag that is absent, or whose value
/// has another type, is `None`.
pub struct ExifFields {
    pub date_time_original: Option<Vec<Vec<u8>>>,
    pub date_time: Option<Vec<Vec<u8>>>,
    pub date_time_digitized: Option<Vec<Vec<u8>>>,
    pub gps_latitude: Option<Vec<Ratio>>,
    pub gps_latitude_ref: Option<Vec<Vec<u8>>>,
    pub gps_longitude: Option<Vec<Ratio>>,
    pub gps_longitude_ref: Option<Vec<Vec<u8>>>,
}

/// `s` without its trailing NUL bytes.
pub open spec fn trim_nul(s: Seq<u8>) -> Seq<u8>
    decreases s.len(),
{
    if s.len() > 0 && s.last() == 0u8 {
        trim_nul(s.drop_last())
    } else {
        s
    }
}

/// `s` has the shape `YYYY:MM:DD HH:MM:SS`.
pub open spec fn exif_layout(s: Seq<u8>) -> bool {
    &&& s.len() == 19
    &&& digit_bytes(s, 0, 4)
    &&& digit_bytes(s, 5, 2)
    &&& digit_bytes(s, 8, 2)
    &&& digit_bytes(s, 11, 2)
    &&& digit_bytes(s, 14, 2)
    &&& digit_bytes(s, 17, 2)
    &&& s[4] == 58u8 && s[7] == 58u8 && s[10] == 32u8 && s[13] == 58u8 && s[16] == 58u8
}

/// The instant that an EXIF date-time text names, read as UTC.
pub open spec fn exif_datetime(s: Seq<u8>) -> Option<Timestamp> {
    let t = trim_nul(s);
    if exif_layout(t) {
        let year = bytes_value(t, 0, 4);
        let month = bytes_value(t, 5, 2);
        let day = bytes_value(t, 8, 2);
        let hour = bytes_value(t, 11, 2);
        let minute = bytes_value(t, 14, 2);
        let second = bytes_value(t, 17, 2);
        if is_valid_date(year as int, month as int, day as int) && is_valid_time(
            hour as int,
            minute as int,
            second as int,
        ) {
            Some(
                Timestamp {
                    year: year as u32,
                    month: month as u32,
                    day: day as u32,
                    hour: hour as u32,
                    minute: minute as u32,
                    second: second as u32,
                },
            )
        } else {
            None
        }
    } else {
        None
    }
}

/// The instant a date-time tag gives: its first string, parsed.
pub open spec fn tag_datetime(tag: Option<Vec<Vec<u8>>>) -> Option<Timestamp> {
    match tag {
        Some(strs) => if strs@.len() > 0 {
            exif_datetime(strs@[0]@)
        } else {
            None
        },
        None => None,
    }
}

/// The first of the original-capture, modification and digitized times that
/// parses.
pub open spec fn fields_datetime(f: ExifFields) -> Option<Timestamp> {
    if tag_datetime(f.date_time_original) is Some {
        tag_datetime(f.date_time_original)
    } else if tag_datetime(f.date_time) is Some {
        tag_datetime(f.date_time)
    } else {
        tag_datetime(f.date_time_digitized)
    }
}

/// One axis of a position from its coordinate tag and its reference tag;
/// `pos` and `neg` are the two reference letters this axis accepts.
pub open spec fn axis_of(
    coord: Option<Vec<Ratio>>,
    reference: Option<Vec<Vec<u8>>>,
    pos: u8,
    neg: u8,
) -> Option<SignedDms> {
    match (coord, reference) {
        (Some(c), Some(r)) => if c@.len() >= 3 && r@.len() > 0 && r@[0]@.len() > 0 && (r@[0]@[0]
            == pos || r@[0]@[0] == neg) {
            Some(
                SignedDms {
                    negative: r@[0]@[0] == neg,
                    degrees: c@[0],
                    minutes: c@[1],
                    seconds: c@[2],
                },
            )
        } else {
            None
        },
        _ => None,
    }
}

pub open spec fn fields_gps(f: ExifFields) -> Option<GpsCoordinates> {
    match (
        axis_of(f.gps_latitude, f.gps_latitude_ref, 78u8, 83u8),
        axis_of(f.gps_longitude, f.gps_longitude_ref, 69u8, 87u8),
    ) {
        (Some(latitude), Some(longitude)) => Some(GpsCoordinates { latitude, longitude }),
        _ => None,
    }
}

pub open spec fn fields_metadata(f: ExifFields) -> PhotoMetadata {
    PhotoMetadata {
        datetime: fields_datetime(f),
        gps: fields_gps(f),
        datetime_source: if fields_datetime(f) is Some {
            DateTimeSource::Exif
        } else {
            DateTimeSource::Unresolved
        },
    }
}

impl PhotoMetadata {
    /// A timestamp is present exactly when its source is resolved, and it is a
    /// real date and time.
    pub open spec fn wf(&self) -> bool {
        &&& (self.datetime is None <==> self.datetime_source == DateTimeSource::Unresolved)
        &&& (self.datetime matches Some(t) ==> t.wf())
    }

    pub fn empty() -> (r: PhotoMetadata)
        ensures
            r == (PhotoMetadata {
                datetime: None,
                gps: None,
                datetime_source: DateTimeSource::Unresolved,
            }),
            r.wf(),
    {
        PhotoMetadata { datetime: None, gps: None, datetime_source: DateTimeSource::Unresolved }
    }
}

/// Parses an EXIF date-time text `YYYY:MM:DD HH:MM:SS`, after dropping
/// trailing NUL bytes, as a UTC instant.
pub fn parse_exif_datetime(s: &Vec<u8>) -> (r: Option<Timestamp>)
    ensures
        r == exif_datetime(s@),
        r matches Some(t) ==> t.wf(),
{
    let mut n: usize = s.len();
    assert(s@.subrange(0, s@.len() as int) =~= s@);
    while n > 0 && s[n - 1] == 0
        invariant
            n <= s@.len(),
            trim_nul(s@) == trim_nul(s@.subrange(0, n as int)),
        decreases n,
    {
        assert(s@.subrange(0, n as int).drop_last() =~= s@.subrange(0, n - 1));
        n = n - 1;
    }
    assert(s@.subrange(0, s@.len() as int) =~= s@);
    let ghost t = s@.subrange(0, n as int);
    assert(trim_nul(t) == t);
    assert(trim_nul(s@) == t);
    if n != 19 {
        return None;
    }
    if !(s[4] == 58 && s[7] == 58 && s[10] == 32 && s[13] == 58 && s[16] == 58) {
        return None;
    }
    let mut i: usize = 0;
    while i < 19
        invariant
            n == 19 <= s@.len(),
            t =~= s@.subrange(0, 19),
            trim_nul(s@) == t,
            i <= 19,
            forall|j: int|
                0 <= j < i && j != 4 && j != 7 && j != 10 && j != 13 && j != 16
                    ==> crate::digits::is_digit_byte(#[trigger] s@[j]),
        decreases 19 - i,
    {
        if i != 4 && i != 7 && i != 10 && i != 13 && i != 16 && !(48 <= s[i] && s[i] <= 57) {
            assert(t[i as int] == s@[i as int]);
            assert(!crate::digits::is_digit_byte(t[i as int]));
            assert(!exif_layout(t));
            assert(exif_datetime(s@) is None);
            return None;
        }
        i = i + 1;
    }
    assert(exif_layout(t));
    proof {
        assert forall|a: int, l: nat| 0 <= a && a + l <= 19 implies bytes_value(t, a, l)
            == bytes_value(s@, a, l) by {
            lemma_bytes_value_prefix(s@, 19, a, l);
        }
        assert forall|a: int, l: int| 0 <= a && a + l <= 19 && digit_bytes(t, a, l) implies
            digit_bytes(s@, a, l) by {
            assert forall|j: int| a <= j < a + l implies #[trigger] crate::digits::is_digit_byte(
                s@[j],
            ) by {
                assert(crate::digits::is_digit_byte(t[j]));
            }
        }
    }
    let year = read_bytes_number(s, 0, 4);
    let month = read_bytes_number(s, 5, 2);
    let day = read_bytes_number(s, 8, 2);
    let hour = read_bytes_number(s, 11, 2);
    let minute = read_bytes_number(s, 14, 2);
    let second = read_bytes_number(s, 17, 2);
    proof {
        reveal_with_fuel(crate::digits::pow10, 5);
    }
    Timestamp::from_parts(year, month, day, hour, minute, second)
}

proof fn lemma_bytes_value_prefix(s: Seq<u8>, n: int, a: int, l: nat)
    requires
        0 <= a,
        a + l <= n <= s.len(),
    ensures
        bytes_value(s.subrange(0, n), a, l) == bytes_value(s, a, l),
    decreases l,
{
    if l > 0 {
        lemma_bytes_value_prefix(s, n, a, (l - 1) as nat);
    }
}

proof fn lemma_trim_padding(s: Seq<u8>, pad: nat)
    requires
        s.len() > 0,
        s.last() != 0u8,
    ensures
        trim_nul(s + Seq::new(pad, |i: int| 0u8)) == s,
    decreases pad,
{
    let p = s + Seq::new(pad, |i: int| 0u8);
    if pad == 0 {
        assert(p =~= s);
    } else {
        assert(p.drop_last() =~= s + Seq::new((pad - 1) as nat, |i: int| 0u8));
        lemma_trim_padding(s, (pad - 1) as nat);
    }
}

/// A date-time text of the shape `YYYY:MM:DD HH:MM:SS` that names a real date
/// and time, followed by any number of NUL bytes, gives exactly the instant its
/// digits spell, read as UTC with no offset applied.
pub proof fn lemma_padded_datetime_exact(s: Seq<u8>, pad: nat)
    requires
        exif_layout(s),
        is_valid_date(
            bytes_value(s, 0, 4) as int,
            bytes_value(s, 5, 2) as int,
            bytes_value(s, 8, 2) as int,
        ),
        is_valid_time(
            bytes_value(s, 11, 2) as int,
            bytes_value(s, 14, 2) as int,
            bytes_value(s, 17, 2) as int,
        ),
    ensures
        exif_datetime(s + Seq::new(pad, |i: int| 0u8)) == Some(
            Timestamp {
                year: bytes_value(s, 0, 4) as u32,
                month: bytes_value(s, 5, 2) as u32,
                day: bytes_value(s, 8, 2) as u32,
                hour: bytes_value(s, 11, 2) as u32,
                minute: bytes_value(s, 14, 2) as u32,
                second: bytes_value(s, 17, 2) as u32,
            },
        ),
{
    assert(crate::digits::is_digit_byte(s[18]));
    lemma_trim_padding(s, pad);
}

fn tag_first_datetime(tag: &Option<Vec<Vec<u8>>>) -> (r: Option<Timestamp>)
    ensures
        r == tag_datetime(*tag),
        r matches Some(t) ==> t.wf(),
{
    match tag {
        Some(strs) => {
            if strs.len() > 0 {
                parse_exif_datetime(&strs[0])
            } else {
                None
            }
        },
        None => None,
    }
}

/// The first date-time tag, in the order original capture, modification,
/// digitization, whose text parses; later tags are not consulted once one has.
pub fn extract_datetime(fields: &ExifFields) -> (r: Option<Timestamp>)
    ensures
        r == fields_datetime(*fields),
        r matches Some(t) ==> t.wf(),
{
    let original = tag_first_datetime(&fields.date_time_original);
    if original.is_some() {
        return original;
    }
    let modified = tag_first_datetime(&fields.date_time);
    if modified.is_some() {
        return modified;
    }
    tag_first_datetime(&fields.date_time_digitized)
}

/// One axis of a position. The reference letter is the first byte of the
/// reference tag's first string; a letter other than `pos` or `neg`, or fewer
/// than three components, gives `None`.
pub fn extract_gps_coordinate(
    coord: &Option<Vec<Ratio>>,
    reference: &Option<Vec<Vec<u8>>>,
    pos: u8,
    neg: u8,
) -> (r: Option<SignedDms>)
    ensures
        r == axis_of(*coord, *reference, pos, neg),
{
    match (coord, reference) {
        (Some(c), Some(refs)) => {
            if c.len() >= 3 && refs.len() > 0 && refs[0].len() > 0 && (refs[0][0] == pos
                || refs[0][0] == neg) {
                Some(
                    SignedDms {
                        negative: refs[0][0] == neg,
                        degrees: c[0],
                        minutes: c[1],
                        seconds: c[2],
                    },
                )
            } else {
                None
            }
        },
        _ => None,
    }
}

/// The position, when both the latitude (reference `N` or `S`) and the
/// longitude (reference `E` or `W`) are complete; otherwise none at all.
pub fn extract_gps_coordinates(fields: &ExifFields) -> (r: Option<GpsCoordinates>)
    ensures
        r == fields_gps(*fields),
{
    let lat = extract_gps_coordinate(&fields.gps_latitude, &fields.gps_latitude_ref, 78, 83);
    let lon = extract_gps_coordinate(&fields.gps_longitude, &fields.gps_longitude_ref, 69, 87);
    match (lat, lon) {
        (Some(latitude), Some(longitude)) => Some(GpsCoordinates { latitude, longitude }),
        _ => None,
    }
}

/// The metadata that an image's tags give on their own.
pub fn extract_metadata(fields: &ExifFields) -> (r: PhotoMetadata)
    ensures
        r == fields_metadata(*fields),
        r.wf(),
{
    let datetime = extract_datetime(fields);
    let gps = extract_gps_coordinates(fields);
    let datetime_source = if datetime.is_some() {
        DateTimeSource::Exif
    } else {
        DateTimeSource::Unresolved
    };
    PhotoMetadata { datetime, gps, datetime_source }
}

} // verus!

verus! {

/// The first byte of a reference tag's first string, if any.
pub open spec fn reference_letter(reference: Option<Vec<Vec<u8>>>) -> Option<u8> {
    match reference {
        Some(r) => if r@.len() > 0 && r@[0]@.len() > 0 {
            Some(r@[0]@[0])
        } else {
            None
        },
        None => None,
    }
}

/// The reference letter decides the sign alone: with `S` the latitude is
/// negative, with `N` positive, and its magnitude (degrees, minutes, seconds)
/// is the coordinate tag's in both cases. Any other letter, or none, voids the
/// whole position. The same holds of the longitude with `W` and `E`.
pub proof fn lemma_reference_sign(f: ExifFields)
    ensures
        fields_gps(f) matches Some(g) ==> {
            &&& g.latitude.negative <==> reference_letter(f.gps_latitude_ref) == Some(83u8)
            &&& !g.latitude.negative <==> reference_letter(f.gps_latitude_ref) == Some(78u8)
            &&& g.latitude.degrees == f.gps_latitude->0@[0]
            &&& g.latitude.minutes == f.gps_latitude->0@[1]
            &&& g.latitude.seconds == f.gps_latitude->0@[2]
            &&& g.longitude.negative <==> reference_letter(f.gps_longitude_ref) == Some(87u8)
            &&& !g.longitude.negative <==> reference_letter(f.gps_longitude_ref) == Some(69u8)
            &&& g.longitude.degrees == f.gps_longitude->0@[0]
            &&& g.longitude.minutes == f.gps_longitude->0@[1]
            &&& g.longitude.seconds == f.gps_longitude->0@[2]
        },
        !(reference_letter(f.gps_latitude_ref) == Some(78u8) || reference_letter(
            f.gps_latitude_ref,
        ) == Some(83u8)) ==> fields_gps(f) is None,
        !(reference_letter(f.gps_longitude_ref) == Some(69u8) || reference_letter(
            f.gps_longitude_ref,
        ) == Some(87u8)) ==> fields_gps(f) is None,
{
}

} // verus!
