//! Decisions of the batch driver.
//!
//! The driver walks directories, opens the files its extension filter
//! accepts, and groups non-compilation tracks by artist and album so their
//! statistics can be merged into album numbers.  The walking and opening are
//! I/O and live with the caller; the decisions are here.

use vstd::prelude::*;
use vstd::string::StrSliceExecFns;
use vstd::string::StringExecFns;

verus! {

/// The audio containers the pipeline accepts.
#[derive(Clone, Copy, PartialEq, Eq, Structural, Debug)]
pub enum FileKind {
    Mp3,
    M4a,
}

/// The kind a lower-case extension selects.
pub open spec fn spec_kind(s: Seq<char>) -> Option<FileKind> {
    if s == seq!['m', 'p', '3'] {
        Some(FileKind::Mp3)
    } else if s == seq!['m', '4', 'a'] {
        Some(FileKind::M4a)
    } else {
        None
    }
}

/// What `str::to_lowercase` returns: a function of the characters alone.
pub uninterp spec fn lower_of(s: Seq<char>) -> Seq<char>;

/// Relies on str::to_lowercase for case folding of the extension.
#[verifier::external_body]
fn lowercase(s: &str) -> (r: String)
    ensures
        r@ == lower_of(s@),
{
    s.to_lowercase()
}

/// The kind an already lower-case extension selects.
pub fn match_kind(ext: &str) -> (r: Option<FileKind>)
    ensures
        r == spec_kind(ext@),
{
    let n = ext.unicode_len();
    if n != 3 {
        return None;
    }
    let c0 = ext.get_char(0);
    let c1 = ext.get_char(1);
    let c2 = ext.get_char(2);
    if c0 == 'm' && c1 == 'p' && c2 == '3' {
        proof {
            assert(ext@ =~= seq!['m', 'p', '3']);
        }
        Some(FileKind::Mp3)
    } else if c0 == 'm' && c1 == '4' && c2 == 'a' {
        proof {
            assert(ext@ =~= seq!['m', '4', 'a']);
        }
        Some(FileKind::M4a)
    } else {
        None
    }
}

/// The kind a path's extension selects, case folded as the driver folds it.
pub fn file_kind(ext: &str) -> (r: Option<FileKind>)
    ensures
        r == spec_kind(lower_of(ext@)),
{
    let low = lowercase(ext);
    match_kind(low.as_str())
}

/// The name of an album group: artist and album, a null byte between them,
/// so that distinct (artist, album) pairs never collide.
pub fn album_key(artist: &str, album: &str) -> (key: String)
    ensures
        key@ == artist@ + seq!['\0'] + album@,
{
    let mut key = String::new();
    key.append(artist);
    key.append("\0");
    key.append(album);
    proof {
        reveal_strlit("\0");
        assert("\0"@ =~= seq!['\0']);
        assert(key@ =~= artist@ + seq!['\0'] + album@);
    }
    key
}

/// Decide a track's album group.
///
/// A track joins a group exactly when it is not a compilation and carries
/// both an artist and an album tag; the group is named by the two tags.
/// Compilations and incompletely tagged tracks are normalized alone.
pub fn group_key(compilation: bool, artist: Option<&str>, album: Option<&str>) -> (r: Option<
    String,
>)
    ensures
        (r is Some) <==> (!compilation && artist is Some && album is Some),
        r matches Some(k) ==> k@ == artist->Some_0@ + seq!['\0'] + album->Some_0@,
{
    if compilation {
        return None;
    }
    match (artist, album) {
        (Some(ar), Some(al)) => Some(album_key(ar, al)),
        _ => None,
    }
}

} // verus!
