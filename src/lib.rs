// Gives photos names built from when (and where) they were taken.
//
// The date of a photo comes from its own tags first, then from a date found in
// its file name; the new name is the UTC stamp `YYYYMMDDHHMMSS`, followed by a
// place name when the photo has a position, and a numbered variant where the
// name is already taken. Reading files, looking up place names and renaming
// are left to the caller: the library decides.
use vstd::prelude::*;

pub mod digits;
pub mod exif_extractor;
pub mod filename_extractor;
pub mod geocoding;
pub mod paths;
pub mod rate_gate;
pub mod renamer;
pub mod timestamp;

verus! {

} // verus!
