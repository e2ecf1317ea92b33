use vstd::prelude::*;

use crate::exif_extractor::{
    DateTimeSource, ExifFields, PhotoMetadata, extract_metadata, fields_metadata,
};
use crate::filename_extractor::{extract_date_from_filename, filename_date, stem_or_empty};
use crate::paths::{extension_of, lowercase, lowercase_of, opt_view, path_extension};
use crate::timestamp::{digit_char, stamp_of};

verus! {

/// How far the collision search goes: the plain name and this many numbered
/// variants less one.
pub const MAX_ATTEMPTS: u32 = 1000;

#[derive(Clone, Copy, Debug, PartialEq, Eq, Structural)]
pub enum SkipReason {
    NotAnImage,
    AlreadyNamedCorrectly,
    NoTimestampResolved,
}

#[derive(Clone, Copy, Debug, PartialEq, Eq, Structural)]
pub enum RenameError {
    /// Every name the collision search may try is taken.
    TooManyCollisions,
}

/// What becomes of one file.
#[derive(Clone, Debug)]
pub enum RenameOutcome {
    /// The file is to take this name, in the same directory.
    Renamed(String),
    Skipped(SkipReason),
    Failed(RenameError),
}

/// The date resolution policy: the image's own tags first, then the file
/// name. Where the tags could not be read at all, `fields` is `None`.
pub open spec fn resolved_metadata(fields: Option<ExifFields>, path: Seq<char>) -> PhotoMetadata {
    let base = match fields {
        Some(f) => fields_metadata(f),
        None => PhotoMetadata {
            datetime: None,
            gps: None,
            datetime_source: DateTimeSource::Unresolved,
        },
    };
    if base.datetime is None && filename_date(stem_or_empty(path)) is Some {
        PhotoMetadata {
            datetime: filename_date(stem_or_empty(path)),
            gps: base.gps,
            datetime_source: DateTimeSource::Filename,
        }
    } else {
        base
    }
}

/// Resolves the metadata of the file at `path` from its tags, if they could be
/// read, falling back on a date found in its file name. The position comes
/// from the tags alone.
pub fn resolve_metadata(fields: Option<ExifFields>, path: &str) -> (r: PhotoMetadata)
    ensures
        r == resolved_metadata(fields, path@),
        r.wf(),
{
    let mut metadata = match &fields {
        Some(f) => extract_metadata(f),
        None => PhotoMetadata::empty(),
    };
    if metadata.datetime.is_none() {
        let from_name = extract_date_from_filename(path);
        if from_name.is_some() {
            metadata.datetime = from_name;
            metadata.datetime_source = DateTimeSource::Filename;
        }
    }
    metadata
}

/// The new stem: the stamp, then a hyphen and the place name where the photo
/// has a position and a place name was found for it.
pub open spec fn new_stem(metadata: PhotoMetadata, location: Option<Seq<char>>) -> Option<
    Seq<char>,
> {
    match metadata.datetime {
        None => None,
        Some(t) => Some(
            if metadata.gps is Some && location is Some {
                stamp_of(t) + seq!['-'] + location->0
            } else {
                stamp_of(t)
            },
        ),
    }
}

/// See `new_stem`; `None` means that no new name can be given.
pub fn generate_new_filename(metadata: &PhotoMetadata, location: Option<String>) -> (r: Option<
    String,
>)
    ensures
        opt_view(r) == new_stem(*metadata, opt_view(location)),
{
    proof {
        reveal_strlit("-");
    }
    match metadata.datetime {
        None => None,
        Some(t) => {
            let stamp = t.format_stamp();
            match (metadata.gps, location) {
                (Some(_), Some(l)) => {
                    let name = stamp.concat("-").concat(l.as_str());
                    assert(name@ =~= stamp_of(t) + seq!['-'] + l@);
                    Some(name)
                },
                _ => Some(stamp),
            }
        },
    }
}

/// A file name from a stem and an extension; an empty extension adds no dot.
pub open spec fn with_extension(stem: Seq<char>, ext: Option<Seq<char>>) -> Seq<char> {
    match ext {
        Some(e) => if e.len() > 0 {
            stem + seq!['.'] + e
        } else {
            stem
        },
        None => stem,
    }
}

pub fn join_extension(stem: &str, ext: &Option<String>) -> (r: String)
    ensures
        r@ == with_extension(stem@, opt_view(*ext)),
{
    proof {
        reveal_strlit(".");
    }
    match ext {
        Some(e) => {
            if e.unicode_len() > 0 {
                let name = String::from_str(stem).concat(".").concat(e.as_str());
                assert(name@ =~= stem@ + seq!['.'] + e@);
                name
            } else {
                String::from_str(stem)
            }
        },
        None => String::from_str(stem),
    }
}

/// `n` in decimal, without leading zeros.
pub open spec fn decimal(n: nat) -> Seq<char>
    decreases n,
{
    if n < 10 {
        seq![digit_char(n as int)]
    } else {
        decimal(n / 10).push(digit_char((n % 10) as int))
    }
}

fn append_decimal(out: &mut String, n: u32)
    ensures
        final(out)@ == old(out)@ + decimal(n as nat),
    decreases n,
{
    if n >= 10 {
        append_decimal(out, n / 10);
    }
    out.append(crate::timestamp::digit_str(n % 10));
    assert(final(out)@ =~= old(out)@ + decimal(n as nat));
}

/// The `k`-th name the collision search tries: the plain name first, then the
/// stem with `-1`, `-2`, ... appended.
pub open spec fn candidate(stem: Seq<char>, ext: Option<Seq<char>>, k: nat) -> Seq<char> {
    if k == 0 {
        with_extension(stem, ext)
    } else {
        with_extension(stem + seq!['-'] + decimal(k), ext)
    }
}

pub fn candidate_name(stem: &str, ext: &Option<String>, k: u32) -> (r: String)
    ensures
        r@ == candidate(stem@, opt_view(*ext), k as nat),
{
    if k == 0 {
        join_extension(stem, ext)
    } else {
        proof {
            reveal_strlit("-");
        }
        let mut numbered = String::from_str(stem);
        numbered.append("-");
        append_decimal(&mut numbered, k);
        assert(numbered@ =~= stem@ + seq!['-'] + decimal(k as nat));
        join_extension(numbered.as_str(), ext)
    }
}

pub open spec fn is_taken(existing: Seq<String>, name: Seq<char>) -> bool {
    exists|i: int| 0 <= i < existing.len() && #[trigger] existing[i]@ == name
}

fn contains_name(existing: &Vec<String>, name: &String) -> (r: bool)
    ensures
        r == is_taken(existing@, name@),
{
    let mut i: usize = 0;
    while i < existing.len()
        invariant
            i <= existing@.len(),
            forall|j: int| 0 <= j < i ==> #[trigger] existing@[j]@ != name@,
        decreases existing.len() - i,
    {
        if existing[i] == *name {
            return true;
        }
        i = i + 1;
    }
    false
}

/// The index of the first name, from the `k`-th of the collision search on,
/// that is not among `existing`; none within the search's bound.
pub open spec fn first_free(
    stem: Seq<char>,
    ext: Option<Seq<char>>,
    existing: Seq<String>,
    k: nat,
) -> Option<nat>
    decreases MAX_ATTEMPTS - k,
{
    if k >= MAX_ATTEMPTS {
        None
    } else if !is_taken(existing, candidate(stem, ext, k)) {
        Some(k)
    } else {
        first_free(stem, ext, existing, k + 1)
    }
}

/// The first name of the collision search that is not among `existing`, the
/// names already present in the directory; an error when the plain name and
/// all of `-1` to `-999` are taken.
pub fn ensure_unique_filename(stem: &str, ext: &Option<String>, existing: &Vec<String>) -> (r:
    Result<String, RenameError>)
    ensures
        match first_free(stem@, opt_view(*ext), existing@, 0) {
            Some(k) => r matches Ok(name) && name@ == candidate(stem@, opt_view(*ext), k),
            None => r == Err::<String, RenameError>(RenameError::TooManyCollisions),
        },
{
    let mut k: u32 = 0;
    while k < MAX_ATTEMPTS
        invariant
            k <= MAX_ATTEMPTS,
            first_free(stem@, opt_view(*ext), existing@, 0) == first_free(
                stem@,
                opt_view(*ext),
                existing@,
                k as nat,
            ),
        decreases MAX_ATTEMPTS - k,
    {
        let name = candidate_name(stem, ext, k);
        if !contains_name(existing, &name) {
            return Ok(name);
        }
        k = k + 1;
    }
    Err(RenameError::TooManyCollisions)
}

proof fn lemma_first_free_from(
    stem: Seq<char>,
    ext: Option<Seq<char>>,
    existing: Seq<String>,
    k: nat,
    n: nat,
)
    requires
        k <= n < MAX_ATTEMPTS,
        forall|j: nat| k <= j < n ==> is_taken(existing, #[trigger] candidate(stem, ext, j)),
        !is_taken(existing, candidate(stem, ext, n)),
    ensures
        first_free(stem, ext, existing, k) == Some(n),
    decreases n - k,
{
    if k < n {
        lemma_first_free_from(stem, ext, existing, k + 1, n);
    }
}

proof fn lemma_none_free_from(stem: Seq<char>, ext: Option<Seq<char>>, existing: Seq<String>, k: nat)
    requires
        forall|j: nat| j < MAX_ATTEMPTS ==> is_taken(existing, #[trigger] candidate(stem, ext, j)),
    ensures
        first_free(stem, ext, existing, k) is None,
    decreases MAX_ATTEMPTS - k,
{
    if k < MAX_ATTEMPTS {
        lemma_none_free_from(stem, ext, existing, k + 1);
    }
}

/// With the plain name and the variants `-1` to `-(n-1)` taken and `-n` free,
/// the collision search settles on `-n`; with all of its names taken it ends,
/// without a result, after the bound.
pub proof fn lemma_collision_search(
    stem: Seq<char>,
    ext: Option<Seq<char>>,
    existing: Seq<String>,
    n: nat,
)
    ensures
        n < MAX_ATTEMPTS && (forall|j: nat|
            j < n ==> is_taken(existing, #[trigger] candidate(stem, ext, j))) && !is_taken(
            existing,
            candidate(stem, ext, n),
        ) ==> first_free(stem, ext, existing, 0) == Some(n),
        (forall|j: nat| j < MAX_ATTEMPTS ==> is_taken(existing, #[trigger] candidate(stem, ext, j)))
            ==> first_free(stem, ext, existing, 0) is None,
{
    if n < MAX_ATTEMPTS && (forall|j: nat|
        j < n ==> is_taken(existing, #[trigger] candidate(stem, ext, j))) && !is_taken(
        existing,
        candidate(stem, ext, n),
    ) {
        lemma_first_free_from(stem, ext, existing, 0, n);
    }
    if forall|j: nat| j < MAX_ATTEMPTS ==> is_taken(existing, #[trigger] candidate(stem, ext, j)) {
        lemma_none_free_from(stem, ext, existing, 0);
    }
}

/// The extensions of the image files this library renames, in lower case.
pub open spec fn image_extension(e: Seq<char>) -> bool {
    e == "jpg"@ || e == "jpeg"@ || e == "tiff"@ || e == "tif"@ || e == "raw"@ || e == "cr2"@ || e
        == "nef"@ || e == "arw"@ || e == "dng"@
}

pub open spec fn image_path(path: Seq<char>) -> bool {
    match extension_of(path) {
        Some(e) => image_extension(lowercase_of(e)),
        None => false,
    }
}

/// Whether a lower-case extension is one of an image file.
pub fn is_image_extension(lower: &str) -> (r: bool)
    ensures
        r == image_extension(lower@),
{
    let e = String::from_str(lower);
    e == String::from_str("jpg") || e == String::from_str("jpeg") || e == String::from_str("tiff")
        || e == String::from_str("tif") || e == String::from_str("raw") || e == String::from_str(
        "cr2",
    ) || e == String::from_str("nef") || e == String::from_str("arw") || e == String::from_str(
        "dng",
    )
}

/// Whether the path names an image file, by its extension in any case.
pub fn is_image_file(path: &str) -> (r: bool)
    ensures
        r == image_path(path@),
{
    match path_extension(path) {
        Some(ext) => {
            let lower = lowercase(ext.as_str());
            is_image_extension(lower.as_str())
        },
        None => false,
    }
}

/// The decision for the file `file_name` (its name within its directory),
/// given its resolved metadata, the place name found for its position, and
/// the names present in its directory.
pub open spec fn planned(
    file_name: Seq<char>,
    metadata: PhotoMetadata,
    location: Option<Seq<char>>,
    existing: Seq<String>,
    r: RenameOutcome,
) -> bool {
    if !image_path(file_name) {
        r == RenameOutcome::Skipped(SkipReason::NotAnImage)
    } else {
        match new_stem(metadata, location) {
            None => r == RenameOutcome::Skipped(SkipReason::NoTimestampResolved),
            Some(stem) => if with_extension(stem, extension_of(file_name)) == file_name {
                r == RenameOutcome::Skipped(SkipReason::AlreadyNamedCorrectly)
            } else {
                match first_free(stem, extension_of(file_name), existing, 0) {
                    Some(k) => r matches RenameOutcome::Renamed(n) && n@ == candidate(
                        stem,
                        extension_of(file_name),
                        k,
                    ),
                    None => r == RenameOutcome::Failed(RenameError::TooManyCollisions),
                }
            },
        }
    }
}

/// Decides what becomes of one file: see `planned`.
pub fn plan_rename(
    file_name: &str,
    metadata: &PhotoMetadata,
    location: Option<String>,
    existing: &Vec<String>,
) -> (r: RenameOutcome)
    ensures
        planned(file_name@, *metadata, opt_view(location), existing@, r),
{
    if !is_image_file(file_name) {
        return RenameOutcome::Skipped(SkipReason::NotAnImage);
    }
    match generate_new_filename(metadata, location) {
        None => RenameOutcome::Skipped(SkipReason::NoTimestampResolved),
        Some(stem) => {
            let ext = path_extension(file_name);
            let name = join_extension(stem.as_str(), &ext);
            if name == String::from_str(file_name) {
                RenameOutcome::Skipped(SkipReason::AlreadyNamedCorrectly)
            } else {
                match ensure_unique_filename(stem.as_str(), &ext, existing) {
                    Ok(n) => RenameOutcome::Renamed(n),
                    Err(e) => RenameOutcome::Failed(e),
                }
            }
        },
    }
}

} // verus!

verus! {

proof fn lemma_padded_clean(n: nat, width: nat)
    ensures
        crate::geocoding::no_reserved(crate::timestamp::padded(n, width)),
        forall|i: int|
            0 <= i < crate::timestamp::padded(n, width).len() ==> #[trigger] crate::timestamp::padded(
                n,
                width,
            )[i] != '-',
    decreases width,
{
    if width > 0 {
        lemma_padded_clean(n / 10, (width - 1) as nat);
    }
}

/// A new stem, built from a place name free of reserved characters, holds no
/// reserved character either.
pub proof fn lemma_new_stem_clean(metadata: PhotoMetadata, location: Option<Seq<char>>)
    requires
        location matches Some(l) ==> crate::geocoding::no_reserved(l),
    ensures
        new_stem(metadata, location) matches Some(s) ==> crate::geocoding::no_reserved(s),
{
    if let Some(t) = metadata.datetime {
        lemma_padded_clean(t.year as nat, 4);
        lemma_padded_clean(t.month as nat, 2);
        lemma_padded_clean(t.day as nat, 2);
        lemma_padded_clean(t.hour as nat, 2);
        lemma_padded_clean(t.minute as nat, 2);
        lemma_padded_clean(t.second as nat, 2);
        let s = stamp_of(t);
        assert(crate::geocoding::no_reserved(s));
        if metadata.gps is Some && location is Some {
            let full = s + seq!['-'] + location->0;
            assert forall|i: int| 0 <= i < full.len() implies !crate::geocoding::is_reserved(
                #[trigger] full[i],
            ) by {
                if i < s.len() {
                    assert(full[i] == s[i]);
                } else if i > s.len() {
                    assert(full[i] == location->0[i - s.len() - 1]);
                }
            }
        }
    }
}

} // verus!

verus! {

/// A name synthesized with the place label of any address, whose coordinate
/// fallback is free of reserved characters, holds no reserved character.
pub proof fn lemma_synthesized_name_clean(
    metadata: PhotoMetadata,
    address: Option<crate::geocoding::Address>,
    fallback: Seq<char>,
)
    requires
        crate::geocoding::no_reserved(fallback),
    ensures
        new_stem(metadata, Some(crate::geocoding::place_label(address, fallback))) matches Some(s)
            ==> crate::geocoding::no_reserved(s),
{
    if let Some(a) = address {
        crate::geocoding::lemma_sanitized_clean(crate::geocoding::address_label(a));
    }
    lemma_new_stem_clean(metadata, Some(crate::geocoding::place_label(address, fallback)));
}

} // verus!
