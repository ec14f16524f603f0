use vstd::prelude::*;
use crate::text::str_equal;

verus! {

/// Whether a file extension is that of a music file that the library takes:
/// `mp3`, `mp4`, `m4a` or `flac`.
pub open spec fn is_music_extension(ext: Seq<char>) -> bool {
    ext == "mp3"@ || ext == "mp4"@ || ext == "m4a"@ || ext == "flac"@
}

/// Whether a file with this extension (none if it has none, or one that is
/// not UTF-8) belongs in the library.
pub fn music_extension(ext: Option<&str>) -> (r: bool)
    ensures
        r == (ext matches Some(e) && is_music_extension(e@)),
{
    match ext {
        None => false,
        Some(e) => str_equal(e, "mp3") || str_equal(e, "mp4") || str_equal(e, "m4a") || str_equal(
            e,
            "flac",
        ),
    }
}

/// Whether a quick check searches lyrics for a song that it found: only for
/// a song new to the library, only when a search was asked for and the engine
/// is active.
pub fn search_new_entry(active: bool, search_new: bool, is_new: bool) -> (r: bool)
    ensures
        r == (active && search_new && is_new),
{
    active && search_new && is_new
}

} // verus!
